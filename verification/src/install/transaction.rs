//! What holds of every run of an installation, a removal and the recovery
//! sweep.
//!
//! The disk is reduced to the directories and the archive that a transaction is
//! about. Renames are atomic and have no effect when they fail; removing a tree
//! and extracting an archive may leave anything behind when they fail or are
//! interrupted, but removing never adds anything where there was nothing.

use vstd::prelude::*;
use crate::foundry::Installation;
use crate::foundry::local::{self, ManifestFile};
use crate::install::{
    self, ErrorView, Event, InstallingView, JobView, RemovalStage, RemovalStepView, RemovingView, Repair,
    Slot, Stage, StepView, Task,
};
use crate::paths;

verus! {

/// What the transactions of one package find and leave on disk.
pub struct Disk<T> {
    /// The installed package.
    pub target: Option<T>,
    /// Its backup.
    pub backup: Option<T>,
    /// Whether there is a staging directory.
    pub staging: bool,
    /// The staged package, in the staging directory or as the whole of it.
    pub staged: Option<T>,
    /// The removed package.
    pub trash: Option<T>,
    /// Whether the archive is there.
    pub archive: bool,
    /// The package that the archive holds.
    pub package: T,
}

impl<T> Disk<T> {
    /// This disk with another package in one slot.
    pub open spec fn with(self, slot: Slot, tree: Option<T>) -> Disk<T> {
        match slot {
            Slot::Target => Disk { target: tree, ..self },
            Slot::Backup => Disk { backup: tree, ..self },
            Slot::Root => Disk { staged: tree, ..self },
            Slot::Trash => Disk { trash: tree, ..self },
            _ => self,
        }
    }

    /// The package in one slot.
    pub open spec fn tree(self, slot: Slot) -> Option<T> {
        match slot {
            Slot::Target => self.target,
            Slot::Backup => self.backup,
            Slot::Root => self.staged,
            Slot::Trash => self.trash,
            _ => None,
        }
    }

    /// Whether there is anything in one slot.
    pub open spec fn holds(self, slot: Slot) -> bool {
        match slot {
            Slot::Staging => self.staging,
            Slot::Archive => self.archive,
            _ => self.tree(slot) is Some,
        }
    }

    /// This disk without anything in one slot.
    pub open spec fn without(self, slot: Slot) -> Disk<T> {
        match slot {
            Slot::Staging => Disk { staging: false, staged: None, ..self },
            Slot::Archive => Disk { archive: false, ..self },
            _ => self.with(slot, None),
        }
    }

    /// This disk after a rename.
    pub open spec fn renamed(self, from: Slot, to: Slot) -> Disk<T> {
        self.with(to, self.tree(from)).with(from, None)
    }

    /// Whether a rename can have turned this disk into another. Where the
    /// staged package is the whole staging directory, that moves with it.
    pub open spec fn moved(self, from: Slot, to: Slot, other: Disk<T>) -> bool {
        self.tree(from) is Some && (other == self.renamed(from, to) || (from == Slot::Root && other
            == (Disk { staging: false, ..self.renamed(from, to) })))
    }

    /// Whether this disk differs from another in one slot at most.
    pub open spec fn differs_at(self, slot: Slot, other: Disk<T>) -> bool {
        match slot {
            Slot::Staging => other == (Disk {
                staging: other.staging,
                staged: other.staged,
                ..self
            }),
            Slot::Archive => other == (Disk { archive: other.archive, ..self }),
            _ => other == self.with(slot, other.tree(slot)),
        }
    }

    /// Whether no package is left with nothing but a backup.
    pub open spec fn settled(self) -> bool {
        self.target is None ==> self.backup is None
    }

    /// This disk after a recovery sweep in which nothing failed.
    pub open spec fn recovered(self) -> Disk<T> {
        let mended = match self.backup {
            None => self,
            Some(_) => match install::repair_of(self.target is Some) {
                Repair::Drop => Disk { backup: None, ..self },
                Repair::Restore => self.renamed(Slot::Backup, Slot::Target),
            },
        };
        Disk { staging: false, staged: None, trash: None, ..mended }
    }
}

/// Whether a task that came to an event can have turned one disk into
/// another.
pub open spec fn effect<T>(task: Task, event: Event, before: Disk<T>, after: Disk<T>) -> bool {
    install::fits(task, event) && match task {
        Task::Rename(from, to) => match event {
            Event::Done => before.moved(from, to, after),
            _ => after == before,
        },
        Task::RemoveTree(slot) | Task::RemoveFile(slot) => match event {
            Event::Done => after == before.without(slot),
            _ => before.differs_at(slot, after) && (!before.holds(slot) ==> after == before),
        },
        Task::CreateDirs(Slot::Staging) => match event {
            Event::Done => after == (Disk { staging: true, ..before }),
            _ => after == (Disk { staging: after.staging, ..before }),
        },
        Task::Unpack => match event {
            Event::Done => after == before.with(Slot::Root, Some(before.package)),
            _ => before.differs_at(Slot::Staging, after),
        },
        Task::Exists(slot) => after == before && event == Event::Found(before.holds(slot)),
        _ => after == before,
    }
}

/// Whether a task that was interrupted can have turned one disk into another.
pub open spec fn interrupted<T>(task: Task, before: Disk<T>, after: Disk<T>) -> bool {
    match task {
        Task::Rename(from, to) => after == before || before.moved(from, to, after),
        Task::RemoveTree(slot) | Task::RemoveFile(slot) => before.differs_at(slot, after),
        Task::Unpack | Task::CreateDirs(Slot::Staging) => before.differs_at(Slot::Staging, after),
        _ => after == before,
    }
}

/// What came of one task, and the disk afterwards.
pub struct Happening<T> {
    /// What came of the task.
    pub event: Event,
    /// The disk afterwards.
    pub disk: Disk<T>,
}

// ---------------------------------------------------------------------------
// Installations
// ---------------------------------------------------------------------------

/// Where a run of an installation got.
pub enum InstallRun<T> {
    /// It is under way.
    Running(InstallingView, Disk<T>),
    /// It is over.
    Finished(Result<(), ErrorView>, Disk<T>),
}

/// Where a run of an installation gets, when its tasks come to what `trace`
/// tells; nothing when they cannot.
pub open spec fn installed<T>(
    installing: InstallingView,
    disk: Disk<T>,
    trace: Seq<Happening<T>>,
) -> Option<InstallRun<T>>
    decreases trace.len(),
{
    if trace.len() == 0 {
        Some(InstallRun::Running(installing, disk))
    } else if !effect(install::task_of(installing.stage), trace[0].event, disk, trace[0].disk) {
        None
    } else {
        match installing.successor(trace[0].event) {
            StepView::Go(next) => installed(next, trace[0].disk, trace.drop_first()),
            StepView::Finish(result) => if trace.len() == 1 {
                Some(InstallRun::Finished(result, trace[0].disk))
            } else {
                None
            },
        }
    }
}

/// What holds of the disk at every stage of an installation that found it as
/// `start`.
pub open spec fn on_course<T>(stage: Stage, disk: Disk<T>, start: Disk<T>) -> bool {
    &&& disk.package == start.package
    &&& match stage {
        Stage::CheckStaging | Stage::ClearStaging | Stage::MakeStaging | Stage::Unpack => disk.target
            == start.target && disk.backup == start.backup,
        Stage::Look | Stage::Validate | Stage::MakeParent | Stage::MakeBackupParent
        | Stage::CheckTarget => disk.target == start.target && disk.backup == start.backup
            && disk.staged == Some(disk.package),
        Stage::MoveAway => disk.target == start.target && disk.backup == start.backup && disk.staged
            == Some(disk.package) && disk.target is Some,
        Stage::MoveIn { had_previous: false } => disk.target == start.target && disk.target is None
            && disk.backup == start.backup && disk.staged == Some(disk.package),
        Stage::MoveIn { had_previous: true } => disk.target is None && disk.backup == start.target
            && disk.backup is Some && disk.staged == Some(disk.package),
        Stage::Restore { .. } => disk.target is None && disk.backup == start.target
            && disk.backup is Some,
        Stage::DropBackup | Stage::DropStaging | Stage::DropArchive => disk.target == Some(
            disk.package,
        ),
    }
}

/// What holds of the disk when an installation that found it as `start` is
/// over.
pub open spec fn concluded<T>(result: Result<(), ErrorView>, disk: Disk<T>, start: Disk<T>) -> bool {
    match result {
        Ok(()) => disk.target == Some(start.package),
        Err(_) => disk.target == start.target || (disk.target is None && disk.backup
            == start.target && disk.backup is Some),
    }
}

/// Every task keeps an installation on course or concludes it.
proof fn tasks_stay_on_course<T>(
    installing: InstallingView,
    event: Event,
    before: Disk<T>,
    after: Disk<T>,
    start: Disk<T>,
)
    requires
        on_course(installing.stage, before, start),
        effect(install::task_of(installing.stage), event, before, after),
    ensures
        match installing.successor(event) {
            StepView::Go(next) => on_course(next.stage, after, start),
            StepView::Finish(result) => concluded(result, after, start),
        },
{
}

/// A run stays on course until it is concluded.
proof fn runs_stay_on_course<T>(
    installing: InstallingView,
    disk: Disk<T>,
    start: Disk<T>,
    trace: Seq<Happening<T>>,
)
    requires
        on_course(installing.stage, disk, start),
    ensures
        match installed(installing, disk, trace) {
            Some(InstallRun::Running(at, now)) => on_course(at.stage, now, start),
            Some(InstallRun::Finished(result, now)) => concluded(result, now, start),
            None => true,
        },
    decreases trace.len(),
{
    if trace.len() > 0 && effect(
        install::task_of(installing.stage),
        trace[0].event,
        disk,
        trace[0].disk,
    ) {
        tasks_stay_on_course(installing, trace[0].event, disk, trace[0].disk, start);
        if let StepView::Go(next) = installing.successor(trace[0].event) {
            runs_stay_on_course(next, trace[0].disk, start, trace.drop_first());
        }
    }
}

/// An installation is a transaction. Whatever its tasks come to: when it
/// succeeds, the package of the archive is installed; when it fails, the
/// previous state is in place — or, if moving it back failed too, whole in
/// the backup.
pub proof fn installations_are_transactions<T>(
    installing: InstallingView,
    disk: Disk<T>,
    trace: Seq<Happening<T>>,
)
    requires
        installing.stage is CheckStaging,
    ensures
        installed(installing, disk, trace) matches Some(InstallRun::Finished(result, now))
            ==> concluded(result, now, disk),
{
    runs_stay_on_course(installing, disk, disk, trace);
}

/// Whether everything that a run was to remove is gone: no removal failed on
/// something that was there.
pub open spec fn tidied<T>(
    installing: InstallingView,
    disk: Disk<T>,
    trace: Seq<Happening<T>>,
) -> bool
    decreases trace.len(),
{
    trace.len() > 0 ==> {
        &&& trace[0].event is Failed ==> match install::task_of(installing.stage) {
            Task::RemoveTree(slot) | Task::RemoveFile(slot) => !disk.holds(slot),
            _ => true,
        }
        &&& installing.successor(trace[0].event) matches StepView::Go(next) ==> tidied(
            next,
            trace[0].disk,
            trace.drop_first(),
        )
    }
}

/// What is left of the leftovers at a stage of a run that tidies up.
pub open spec fn tidy<T>(stage: Stage, disk: Disk<T>) -> bool {
    match stage {
        Stage::DropBackup => disk.staged is None,
        Stage::DropStaging => disk.staged is None && disk.backup is None,
        Stage::DropArchive => disk.staged is None && disk.backup is None && !disk.staging,
        _ => true,
    }
}

/// A run that tidies up leaves nothing behind when it succeeds.
proof fn runs_tidy_up<T>(
    installing: InstallingView,
    disk: Disk<T>,
    start: Disk<T>,
    trace: Seq<Happening<T>>,
)
    requires
        start.settled(),
        on_course(installing.stage, disk, start),
        tidy(installing.stage, disk),
        tidied(installing, disk, trace),
    ensures
        installed(installing, disk, trace) matches Some(InstallRun::Finished(Ok(()), now)) ==> now
            == (Disk {
            target: Some(start.package),
            backup: None,
            staging: false,
            staged: None,
            archive: false,
            ..now
        }),
    decreases trace.len(),
{
    if trace.len() > 0 && effect(
        install::task_of(installing.stage),
        trace[0].event,
        disk,
        trace[0].disk,
    ) {
        tasks_stay_on_course(installing, trace[0].event, disk, trace[0].disk, start);
        if let StepView::Go(next) = installing.successor(trace[0].event) {
            runs_tidy_up(next, trace[0].disk, start, trace.drop_first());
        }
    }
}

/// A successful installation leaves nothing behind but the package: unless a
/// removal failed on something that was there, the staging directory, the
/// backup and the archive are gone.
pub proof fn successful_installations_leave_nothing_behind<T>(
    installing: InstallingView,
    disk: Disk<T>,
    trace: Seq<Happening<T>>,
)
    requires
        installing.stage is CheckStaging,
        disk.settled(),
        tidied(installing, disk, trace),
    ensures
        installed(installing, disk, trace) matches Some(InstallRun::Finished(Ok(()), now)) ==> {
            &&& now.target == Some(disk.package)
            &&& now.backup is None
            &&& !now.staging
            &&& now.staged is None
            &&& !now.archive
        },
{
    runs_tidy_up(installing, disk, disk, trace);
}

/// Whether a run ends with a failed attempt to move the previous version back.
pub open spec fn restore_failed<T>(
    installing: InstallingView,
    disk: Disk<T>,
    trace: Seq<Happening<T>>,
) -> bool {
    &&& trace.len() > 0
    &&& trace.last().event is Failed
    &&& installed(installing, disk, trace.drop_last()) matches Some(InstallRun::Running(at, _))
    &&& at.stage is Restore
}

/// The previous state is only out of place after a failed installation when
/// the last thing that happened was a failed attempt to move it back.
pub proof fn failed_installations_restore<T>(
    installing: InstallingView,
    disk: Disk<T>,
    trace: Seq<Happening<T>>,
)
    requires
        installing.stage is CheckStaging,
    ensures
        installed(installing, disk, trace) matches Some(InstallRun::Finished(Err(_), now)) ==> (
        now.target == disk.target || restore_failed(installing, disk, trace)),
{
    runs_restore(installing, disk, disk, trace);
}

/// A run that fails leaves the previous state in place, unless it ends with a
/// failed attempt to move it back.
proof fn runs_restore<T>(
    installing: InstallingView,
    disk: Disk<T>,
    start: Disk<T>,
    trace: Seq<Happening<T>>,
)
    requires
        on_course(installing.stage, disk, start),
    ensures
        installed(installing, disk, trace) matches Some(InstallRun::Finished(Err(_), now)) ==> (
        now.target == start.target || restore_failed(installing, disk, trace)),
    decreases trace.len(),
{
    if trace.len() > 0 && effect(
        install::task_of(installing.stage),
        trace[0].event,
        disk,
        trace[0].disk,
    ) {
        tasks_stay_on_course(installing, trace[0].event, disk, trace[0].disk, start);
        let init = trace.drop_last();
        if let StepView::Go(next) = installing.successor(trace[0].event) {
            let rest = trace.drop_first();
            runs_restore(next, trace[0].disk, start, rest);
            if rest.len() > 0 {
                assert(rest.last() == trace.last());
                assert(init[0] == trace[0]);
                assert(init.drop_first() =~= rest.drop_last());
            }
        } else {
            assert(init.len() == 0 ==> installed(installing, disk, init) == Some(
                InstallRun::Running(installing, disk),
            ));
        }
    }
}

/// A crash at any moment of an installation is healed by the next recovery
/// sweep: the package is then installed as it was before, or as the archive
/// holds it, and nothing is left behind.
pub proof fn crashed_installations_are_healed<T>(
    installing: InstallingView,
    disk: Disk<T>,
    trace: Seq<Happening<T>>,
    after: Disk<T>,
)
    requires
        installing.stage is CheckStaging,
        disk.settled(),
        installed(installing, disk, trace) matches Some(InstallRun::Running(at, now)) && interrupted(
            install::task_of(at.stage),
            now,
            after,
        ),
    ensures
        after.recovered().target == disk.target || after.recovered().target == Some(disk.package),
        after.recovered().backup is None,
        after.recovered().staged is None,
        !after.recovered().staging,
{
    runs_stay_on_course(installing, disk, disk, trace);
}

/// A failed installation, however badly it failed, is healed by the next
/// recovery sweep: the previous state is in place again.
pub proof fn failed_installations_are_healed<T>(
    installing: InstallingView,
    disk: Disk<T>,
    trace: Seq<Happening<T>>,
)
    requires
        installing.stage is CheckStaging,
        disk.settled(),
    ensures
        installed(installing, disk, trace) matches Some(InstallRun::Finished(Err(_), now))
            ==> now.recovered().target == disk.target,
{
    failures_keep_backups(installing, disk, disk, trace);
}

/// A run that fails leaves the previous state in place, with the old backup,
/// or in the backup.
proof fn failures_keep_backups<T>(
    installing: InstallingView,
    disk: Disk<T>,
    start: Disk<T>,
    trace: Seq<Happening<T>>,
)
    requires
        on_course(installing.stage, disk, start),
    ensures
        installed(installing, disk, trace) matches Some(InstallRun::Finished(Err(_), now)) ==> {
            ||| now.target == start.target && now.target is Some
            ||| now.target is None && start.target is None && now.backup == start.backup
            ||| now.target is None && now.backup == start.target && now.backup is Some
        },
    decreases trace.len(),
{
    if trace.len() > 0 && effect(
        install::task_of(installing.stage),
        trace[0].event,
        disk,
        trace[0].disk,
    ) {
        tasks_stay_on_course(installing, trace[0].event, disk, trace[0].disk, start);
        if let StepView::Go(next) = installing.successor(trace[0].event) {
            failures_keep_backups(next, trace[0].disk, start, trace.drop_first());
        }
    }
}

/// The installed package is only touched once the staged one was found to be
/// the requested package: up to then it stays as it was.
pub proof fn only_the_requested_package_is_swapped_in(installing: InstallingView, event: Event)
    requires
        installing.stage is Validate,
        install::fits(install::task_of(installing.stage), event),
    ensures
        installing.successor(event) is Go <==> (local::installed_from(
            installing.kind,
            event->Manifest_0,
        ) matches Ok(staged) && staged.id@ == installing.name),
{
}

/// What an installation swaps in, the next scan understands: a staged manifest
/// that was found to be that of the requested package is that of the directory
/// it is moved to.
pub proof fn installed_packages_are_scanned(
    installation: Installation,
    job: JobView,
    archive: Seq<char>,
    manifest: ManifestFile,
)
    requires
        paths::is_component(job.name),
        install::staged_problem(job.kind, job.name, manifest) is None,
    ensures
        local::package_at(
            job.kind,
            install::begun(installation, job, archive).target,
            manifest,
        ) matches Ok(package) && package.id@ == job.name,
{
    paths::components_are_in_their_directory(installation.packages_text(job.kind), job.name);
}

// ---------------------------------------------------------------------------
// Recovery
// ---------------------------------------------------------------------------

/// A recovery sweep settles the disk, and a second one finds nothing to do.
pub proof fn recovery_settles<T>(disk: Disk<T>)
    ensures
        disk.recovered().settled(),
        disk.recovered().recovered() == disk.recovered(),
{
}

/// An installed package survives the recovery sweep as it is; only a package
/// with nothing but a backup is restored from it.
pub proof fn recovery_never_replaces_a_package<T>(disk: Disk<T>)
    ensures
        disk.target is Some ==> disk.recovered().target == disk.target,
        disk.target is None ==> disk.recovered().target == disk.backup,
{
}

// ---------------------------------------------------------------------------
// Removals
// ---------------------------------------------------------------------------

/// Where a run of a removal got.
pub enum RemovalRun<T> {
    /// It is under way.
    Running(RemovingView, Disk<T>),
    /// It is over.
    Finished(Result<(), ErrorView>, Disk<T>),
}

/// Where a run of a removal gets, when its tasks come to what `trace` tells;
/// nothing when they cannot.
pub open spec fn removed<T>(
    removing: RemovingView,
    disk: Disk<T>,
    trace: Seq<Happening<T>>,
) -> Option<RemovalRun<T>>
    decreases trace.len(),
{
    if trace.len() == 0 {
        Some(RemovalRun::Running(removing, disk))
    } else if !effect(
        install::removal_task(removing.stage),
        trace[0].event,
        disk,
        trace[0].disk,
    ) {
        None
    } else {
        match removing.successor(trace[0].event) {
            RemovalStepView::Go(next) => removed(next, trace[0].disk, trace.drop_first()),
            RemovalStepView::Finish(result) => if trace.len() == 1 {
                Some(RemovalRun::Finished(result, trace[0].disk))
            } else {
                None
            },
        }
    }
}

/// A run of a removal keeps the package whole up to the moment it is gone.
proof fn removal_runs_are_atomic<T>(
    removing: RemovingView,
    disk: Disk<T>,
    start: Disk<T>,
    trace: Seq<Happening<T>>,
)
    requires
        disk.backup == start.backup,
        if removing.stage is DropTrash {
            disk.target is None && start.target is Some
        } else {
            disk.target == start.target
        },
    ensures
        match removed(removing, disk, trace) {
            Some(RemovalRun::Running(at, now)) => now.backup == start.backup && if at.stage
                is DropTrash {
                now.target is None && start.target is Some
            } else {
                now.target == start.target
            },
            Some(RemovalRun::Finished(Ok(()), now)) => now.backup == start.backup
                && now.target is None && start.target is Some && (trace.last().event is Done
                ==> now.trash is None),
            Some(RemovalRun::Finished(Err(_), now)) => now.backup == start.backup && now.target
                == start.target,
            None => true,
        },
    decreases trace.len(),
{
    if trace.len() > 0 && effect(
        install::removal_task(removing.stage),
        trace[0].event,
        disk,
        trace[0].disk,
    ) {
        if let RemovalStepView::Go(next) = removing.successor(trace[0].event) {
            let rest = trace.drop_first();
            removal_runs_are_atomic(next, trace[0].disk, start, rest);
            assert(rest.len() > 0 ==> rest.last() == trace.last());
        }
    }
}

/// A removal is one atomic disappearance: when it succeeds, the package was
/// there and is gone, from the trash too unless the last task failed; when it
/// fails, the package is as it was.
pub proof fn removals_are_atomic<T>(
    removing: RemovingView,
    disk: Disk<T>,
    trace: Seq<Happening<T>>,
)
    requires
        removing.stage is MakeTrashParent,
    ensures
        match removed(removing, disk, trace) {
            Some(RemovalRun::Finished(Ok(()), now)) => disk.target is Some && now.target is None
                && (trace.last().event is Done ==> now.trash is None),
            Some(RemovalRun::Finished(Err(_), now)) => now.target == disk.target,
            _ => true,
        },
{
    removal_runs_are_atomic(removing, disk, disk, trace);
}

/// A crash at any moment of a removal leaves the package whole or gone, never
/// half-removed, and the next recovery sweep neither revives a removed package
/// nor leaves anything in the trash.
pub proof fn crashed_removals_leave_no_half_package<T>(
    removing: RemovingView,
    disk: Disk<T>,
    trace: Seq<Happening<T>>,
    after: Disk<T>,
)
    requires
        removing.stage is MakeTrashParent,
        disk.backup is None,
        removed(removing, disk, trace) matches Some(RemovalRun::Running(at, now)) && interrupted(
            install::removal_task(at.stage),
            now,
            after,
        ),
    ensures
        after.target == disk.target || after.target is None,
        after.recovered().target == after.target,
        after.recovered().trash is None,
{
    removal_runs_are_atomic(removing, disk, disk, trace);
}

} // verus!
