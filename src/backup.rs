//! Planning snapshots of a title's save sources, restoring them, and judging the outcome.
use vstd::prelude::*;

use crate::layout::{slot_name, SourceSlot};
use crate::resolver::{join_chars, join_path};
use crate::text::{chars_of, extend_chars, string_of};

verus! {

/// One directory copy: the contents of `source` go into `dest`, merged and overwriting.
#[derive(Clone, Debug)]
pub struct CopyJob {
    pub slot: SourceSlot,
    pub source: String,
    pub dest: String,
}

/// What became of one copy job.
#[derive(Clone, Copy, Debug, PartialEq, Eq, Structural)]
pub enum CopyResult {
    /// A location the job needs did not exist; nothing was copied.
    Missing,
    Copied,
    Failed,
}

/// The outermost directory that creating a snapshot directory brought into being.
#[derive(Clone, Copy, Debug, PartialEq, Eq, Structural)]
pub enum NewDir {
    /// Only the snapshot directory itself was new.
    Snapshot,
    /// The title's directory was new too.
    Title,
    /// The directory of all snapshots was new too.
    Backups,
}

impl NewDir {
    /// The outermost directory that creating a snapshot directory makes, given which of its
    /// parents existed before.
    pub fn outermost(backups_existed: bool, title_existed: bool) -> (r: NewDir)
        ensures
            r == (if !backups_existed {
                NewDir::Backups
            } else if !title_existed {
                NewDir::Title
            } else {
                NewDir::Snapshot
            }),
    {
        if !backups_existed {
            NewDir::Backups
        } else if !title_existed {
            NewDir::Title
        } else {
            NewDir::Snapshot
        }
    }
}

/// What happened when the snapshot directory was to be created.
#[derive(Clone, Copy, Debug, PartialEq, Eq, Structural)]
pub enum RootState {
    /// Created, along with its parents up to the given one.
    Created(NewDir),
    /// A snapshot of that title and second is already on disk.
    AlreadyExisted,
    CreateFailed,
}

/// How a backup ended.
#[derive(Clone, Debug, PartialEq, Eq)]
pub enum BackupOutcome {
    /// At least one source was copied into the snapshot of this timestamp.
    Success(String),
    /// No source could be copied; the snapshot was discarded.
    NoSourceFound,
    /// A snapshot with this timestamp exists already; it was left as it was.
    AlreadyExists,
    /// The snapshot directory could not be created.
    IoFailure,
}

/// How a restore ended.
#[derive(Clone, Copy, Debug, PartialEq, Eq, Structural)]
pub enum RestoreOutcome {
    /// This many sources were restored.
    Restored(usize),
    NothingRestored,
    /// The snapshot to restore from is not on disk.
    SnapshotMissing,
}

/// A copy job as plain values: slot, source and destination.
pub open spec fn job_view(j: CopyJob) -> (SourceSlot, Seq<char>, Seq<char>) {
    (j.slot, j.source@, j.dest@)
}

pub open spec fn jobs_view(js: Seq<CopyJob>) -> Seq<(SourceSlot, Seq<char>, Seq<char>)> {
    js.map_values(|j: CopyJob| job_view(j))
}

/// The slots of a title's sources in priority order: the override, each manifest
/// location, then one cloud slot per cloud folder.
pub open spec fn slots(has_custom: bool, n_manifest: nat, n_cloud: nat) -> Seq<SourceSlot> {
    (if has_custom {
        seq![SourceSlot::Custom]
    } else {
        seq![]
    }) + Seq::new(n_manifest, |i: int| SourceSlot::Manifest(i as usize)) + Seq::new(
        n_cloud,
        |i: int| SourceSlot::Cloud,
    )
}

/// The source locations in the same order as `slots`.
pub open spec fn locations(
    custom: Option<Seq<char>>,
    manifest: Seq<Seq<char>>,
    cloud: Seq<Seq<char>>,
) -> Seq<Seq<char>> {
    (match custom {
        Some(c) => seq![c],
        None => seq![],
    }) + manifest + cloud
}

/// The copies a backup into snapshot directory `root` makes: each source's contents
/// into its slot's subdirectory.
pub open spec fn backup_jobs(
    root: Seq<char>,
    custom: Option<Seq<char>>,
    manifest: Seq<Seq<char>>,
    cloud: Seq<Seq<char>>,
) -> Seq<(SourceSlot, Seq<char>, Seq<char>)> {
    let sl = slots(custom is Some, manifest.len(), cloud.len());
    let loc = locations(custom, manifest, cloud);
    Seq::new(sl.len(), |i: int| (sl[i], loc[i], join_path(root, slot_name(sl[i]))))
}

/// The copies a restore from snapshot directory `root` makes: each slot's contents back
/// into its target.
pub open spec fn restore_jobs(
    root: Seq<char>,
    custom: Option<Seq<char>>,
    manifest: Seq<Seq<char>>,
    cloud: Seq<Seq<char>>,
) -> Seq<(SourceSlot, Seq<char>, Seq<char>)> {
    let sl = slots(custom is Some, manifest.len(), cloud.len());
    let loc = locations(custom, manifest, cloud);
    Seq::new(sl.len(), |i: int| (sl[i], join_path(root, slot_name(sl[i])), loc[i]))
}

pub open spec fn opt_view(o: Option<String>) -> Option<Seq<char>> {
    match o {
        Some(s) => Some(s@),
        None => None,
    }
}

pub open spec fn strings_view(v: Seq<String>) -> Seq<Seq<char>> {
    v.map_values(|s: String| s@)
}

/// Number of jobs that copied.
pub open spec fn copied_count(rs: Seq<CopyResult>) -> nat
    decreases rs.len(),
{
    if rs.len() == 0 {
        0
    } else {
        copied_count(rs.drop_last()) + if rs.last() == CopyResult::Copied {
            1nat
        } else {
            0nat
        }
    }
}

/// `r` is the outcome of a backup into the snapshot of timestamp `stamp`, given what
/// happened to the snapshot directory and the results of its copy jobs.
pub open spec fn backup_outcome_is(
    r: BackupOutcome,
    stamp: Seq<char>,
    root: RootState,
    rs: Seq<CopyResult>,
) -> bool {
    match root {
        RootState::AlreadyExisted => r is AlreadyExists,
        RootState::CreateFailed => r is IoFailure,
        RootState::Created(_) => if copied_count(rs) > 0 {
            r matches BackupOutcome::Success(s) && s@ == stamp
        } else {
            r is NoSourceFound
        },
    }
}

/// The directory that a backup with outcome `r` removes again (with all it holds), given
/// what creating its snapshot directory brought into being: the outermost directory it
/// created, when nothing went into the snapshot; none otherwise.
pub open spec fn discarded(root: RootState, r: BackupOutcome) -> Option<NewDir> {
    match root {
        RootState::Created(d) => if r is NoSourceFound {
            Some(d)
        } else {
            None
        },
        _ => None,
    }
}

/// No job copies when every source is missing.
pub proof fn lemma_all_missing_copies_nothing(rs: Seq<CopyResult>)
    requires
        forall|i: int| 0 <= i < rs.len() ==> rs[i] == CopyResult::Missing,
    ensures
        copied_count(rs) == 0,
    decreases rs.len(),
{
    if rs.len() > 0 {
        lemma_all_missing_copies_nothing(rs.drop_last());
    }
}

/// A backup never writes over a snapshot already on disk: when the directory of its
/// timestamp exists, no copy may go in, the outcome is `AlreadyExists`, and the existing
/// snapshot is not removed.
pub proof fn lemma_existing_snapshot_untouched(
    r: BackupOutcome,
    stamp: Seq<char>,
    rs: Seq<CopyResult>,
)
    requires
        backup_outcome_is(r, stamp, RootState::AlreadyExisted, rs),
    ensures
        !permits(RootState::AlreadyExisted),
        r == BackupOutcome::AlreadyExists,
        discarded(RootState::AlreadyExisted, r) is None,
{
}

/// A backup in which every source is missing ends in `NoSourceFound`, and every directory
/// it created is removed again: the outermost one goes, with all it holds.
pub proof fn lemma_no_source_leaves_nothing(
    r: BackupOutcome,
    stamp: Seq<char>,
    created: NewDir,
    rs: Seq<CopyResult>,
)
    requires
        forall|i: int| 0 <= i < rs.len() ==> rs[i] == CopyResult::Missing,
        backup_outcome_is(r, stamp, RootState::Created(created), rs),
    ensures
        r == BackupOutcome::NoSourceFound,
        discarded(RootState::Created(created), r) == Some(created),
{
    lemma_all_missing_copies_nothing(rs);
}

/// Restoring a snapshot into the locations that its backup read copies each slot back to
/// the very location that filled it, in the same order.
pub proof fn lemma_restore_reverses_backup(
    root: Seq<char>,
    custom: Option<Seq<char>>,
    manifest: Seq<Seq<char>>,
    cloud: Seq<Seq<char>>,
)
    ensures
        restore_jobs(root, custom, manifest, cloud) == backup_jobs(
            root,
            custom,
            manifest,
            cloud,
        ).map_values(|j: (SourceSlot, Seq<char>, Seq<char>)| (j.0, j.2, j.1)),
{
    assert(restore_jobs(root, custom, manifest, cloud) =~= backup_jobs(
        root,
        custom,
        manifest,
        cloud,
    ).map_values(|j: (SourceSlot, Seq<char>, Seq<char>)| (j.0, j.2, j.1)));
}

/// Copies may go into the snapshot only when this backup created its directory.
pub open spec fn permits(root: RootState) -> bool {
    root is Created
}

impl RootState {
    /// Copies may go into the snapshot only when this backup created its directory.
    pub fn permits_copy(&self) -> (r: bool)
        ensures
            r == permits(*self),
    {
        match self {
            RootState::Created(_) => true,
            _ => false,
        }
    }
}

impl BackupOutcome {
    /// Retention is applied after a backup that succeeded.
    pub fn is_success(&self) -> (r: bool)
        ensures
            r == (*self is Success),
    {
        match self {
            BackupOutcome::Success(_) => true,
            _ => false,
        }
    }

    /// The outcome in the `Kind:Detail` form shown to users.
    pub fn describe(&self) -> (r: String)
        ensures
            r@ == match *self {
                BackupOutcome::Success(s) => "Success:"@ + s@,
                BackupOutcome::NoSourceFound => "Warning: no save files found."@,
                BackupOutcome::AlreadyExists => "Error: a snapshot of this second exists."@,
                BackupOutcome::IoFailure => "Error: the snapshot directory could not be created."@,
            },
    {
        match self {
            BackupOutcome::Success(s) => {
                let mut v = chars_of("Success:");
                extend_chars(&mut v, &chars_of(s.as_str()));
                string_of(&v)
            },
            BackupOutcome::NoSourceFound => string_of(&chars_of("Warning: no save files found.")),
            BackupOutcome::AlreadyExists => string_of(
                &chars_of("Error: a snapshot of this second exists."),
            ),
            BackupOutcome::IoFailure => string_of(
                &chars_of("Error: the snapshot directory could not be created."),
            ),
        }
    }
}

impl RestoreOutcome {
    /// The outcome in the `Kind:Detail` form shown to users.
    pub fn describe(&self) -> (r: String)
        ensures
            r@ == match *self {
                RestoreOutcome::Restored(_) => "Success:files restored"@,
                RestoreOutcome::NothingRestored => "Error: nothing restored."@,
                RestoreOutcome::SnapshotMissing => "Error: snapshot not found."@,
            },
    {
        match self {
            RestoreOutcome::Restored(_) => string_of(&chars_of("Success:files restored")),
            RestoreOutcome::NothingRestored => string_of(&chars_of("Error: nothing restored.")),
            RestoreOutcome::SnapshotMissing => string_of(&chars_of("Error: snapshot not found.")),
        }
    }
}

/// Builds the copy jobs for the slots of the given sources.
fn make_jobs(
    root: &Vec<char>,
    custom: &Option<String>,
    manifest: &Vec<String>,
    cloud: &Vec<String>,
    forward: bool,
) -> (r: Vec<CopyJob>)
    ensures
        jobs_view(r@) == if forward {
            backup_jobs(root@, opt_view(*custom), strings_view(manifest@), strings_view(cloud@))
        } else {
            restore_jobs(root@, opt_view(*custom), strings_view(manifest@), strings_view(cloud@))
        },
{
    let ghost sl = slots(custom is Some, manifest@.len(), cloud@.len());
    let ghost loc = locations(opt_view(*custom), strings_view(manifest@), strings_view(cloud@));
    let ghost target = if forward {
        backup_jobs(root@, opt_view(*custom), strings_view(manifest@), strings_view(cloud@))
    } else {
        restore_jobs(root@, opt_view(*custom), strings_view(manifest@), strings_view(cloud@))
    };
    let mut out: Vec<CopyJob> = Vec::new();
    let c: usize = if custom.is_some() {
        1
    } else {
        0
    };
    match custom {
        Some(p) => {
            let slot_dir = join_chars(root, &chars_of(SourceSlot::Custom.dir_name().as_str()));
            let there = string_of(&slot_dir);
            let job = if forward {
                CopyJob { slot: SourceSlot::Custom, source: p.clone(), dest: there }
            } else {
                CopyJob { slot: SourceSlot::Custom, source: there, dest: p.clone() }
            };
            out.push(job);
        },
        None => {},
    }
    assert(jobs_view(out@) =~= target.take(c as int));
    let mut i: usize = 0;
    while i < manifest.len()
        invariant
            i <= manifest.len(),
            c == (if custom is Some { 1usize } else { 0usize }),
            sl == slots(custom is Some, manifest@.len(), cloud@.len()),
            loc == locations(opt_view(*custom), strings_view(manifest@), strings_view(cloud@)),
            target == (if forward {
                backup_jobs(root@, opt_view(*custom), strings_view(manifest@), strings_view(cloud@))
            } else {
                restore_jobs(root@, opt_view(*custom), strings_view(manifest@), strings_view(cloud@))
            }),
            jobs_view(out@) == target.take(c + i),
        decreases manifest.len() - i,
    {
        let slot = SourceSlot::Manifest(i);
        let slot_dir = join_chars(root, &chars_of(slot.dir_name().as_str()));
        let there = string_of(&slot_dir);
        let job = if forward {
            CopyJob { slot, source: manifest[i].clone(), dest: there }
        } else {
            CopyJob { slot, source: there, dest: manifest[i].clone() }
        };
        let ghost before = out@;
        out.push(job);
        assert(sl[c + i] == slot);
        assert(loc[c + i] == manifest@[i as int]@);
        assert(jobs_view(out@) =~= jobs_view(before).push(job_view(job)));
        i += 1;
        assert(jobs_view(out@) =~= target.take(c + i));
    }
    let mut j: usize = 0;
    while j < cloud.len()
        invariant
            j <= cloud.len(),
            c == (if custom is Some { 1usize } else { 0usize }),
            sl == slots(custom is Some, manifest@.len(), cloud@.len()),
            loc == locations(opt_view(*custom), strings_view(manifest@), strings_view(cloud@)),
            target == (if forward {
                backup_jobs(root@, opt_view(*custom), strings_view(manifest@), strings_view(cloud@))
            } else {
                restore_jobs(root@, opt_view(*custom), strings_view(manifest@), strings_view(cloud@))
            }),
            jobs_view(out@) == target.take(c + manifest.len() + j),
        decreases cloud.len() - j,
    {
        let slot_dir = join_chars(root, &chars_of(SourceSlot::Cloud.dir_name().as_str()));
        let there = string_of(&slot_dir);
        let job = if forward {
            CopyJob { slot: SourceSlot::Cloud, source: cloud[j].clone(), dest: there }
        } else {
            CopyJob { slot: SourceSlot::Cloud, source: there, dest: cloud[j].clone() }
        };
        let ghost before = out@;
        out.push(job);
        assert(sl[c + manifest.len() + j] == SourceSlot::Cloud);
        assert(loc[c + manifest.len() + j] == cloud@[j as int]@);
        assert(jobs_view(out@) =~= jobs_view(before).push(job_view(job)));
        j += 1;
        assert(jobs_view(out@) =~= target.take(c + manifest.len() + j));
    }
    assert(jobs_view(out@) =~= target);
    out
}

/// Snapshots, restores and prunes a title's save data.
pub struct BackupService;

impl BackupService {
    /// The copies that back up the given sources into snapshot directory `root`, in
    /// priority order: the override, the manifest locations, the cloud folders.
    pub fn plan_backup(
        root: &str,
        custom: &Option<String>,
        manifest: &Vec<String>,
        cloud: &Vec<String>,
    ) -> (r: Vec<CopyJob>)
        ensures
            jobs_view(r@) == backup_jobs(
                root@,
                opt_view(*custom),
                strings_view(manifest@),
                strings_view(cloud@),
            ),
    {
        make_jobs(&chars_of(root), custom, manifest, cloud, true)
    }

    /// The copies that restore snapshot directory `root` into the given targets, in the
    /// same order and slots as `plan_backup`.
    pub fn plan_restore(
        root: &str,
        custom: &Option<String>,
        manifest: &Vec<String>,
        cloud: &Vec<String>,
    ) -> (r: Vec<CopyJob>)
        ensures
            jobs_view(r@) == restore_jobs(
                root@,
                opt_view(*custom),
                strings_view(manifest@),
                strings_view(cloud@),
            ),
    {
        make_jobs(&chars_of(root), custom, manifest, cloud, false)
    }

    /// How many of the jobs copied.
    pub fn count_copied(results: &Vec<CopyResult>) -> (r: usize)
        ensures
            r == copied_count(results@),
    {
        let mut c: usize = 0;
        let mut i: usize = 0;
        while i < results.len()
            invariant
                i <= results.len(),
                c == copied_count(results@.take(i as int)),
                c <= i,
            decreases results.len() - i,
        {
            assert(results@.take(i + 1).drop_last() =~= results@.take(i as int));
            if results[i] == CopyResult::Copied {
                c += 1;
            }
            i += 1;
        }
        assert(results@.take(results.len() as int) =~= results@);
        c
    }

    /// The directory to remove again after a backup with outcome `outcome`: the outermost
    /// one that creating the snapshot directory made, when nothing went into the snapshot.
    pub fn discard_after(root: RootState, outcome: &BackupOutcome) -> (r: Option<NewDir>)
        ensures
            r == discarded(root, *outcome),
    {
        match (root, outcome) {
            (RootState::Created(d), BackupOutcome::NoSourceFound) => Some(d),
            _ => None,
        }
    }

    /// The outcome of a backup into the snapshot of timestamp `stamp`, given what happened
    /// to its directory and to each copy job.
    pub fn conclude_backup(stamp: &str, root: RootState, results: &Vec<CopyResult>) -> (r:
        BackupOutcome)
        ensures
            backup_outcome_is(r, stamp@, root, results@),
    {
        match root {
            RootState::AlreadyExisted => BackupOutcome::AlreadyExists,
            RootState::CreateFailed => BackupOutcome::IoFailure,
            RootState::Created(_) => {
                if BackupService::count_copied(results) > 0 {
                    BackupOutcome::Success(string_of(&chars_of(stamp)))
                } else {
                    BackupOutcome::NoSourceFound
                }
            },
        }
    }

    /// The outcome of a restore, given whether the snapshot exists and what happened to
    /// each copy job.
    pub fn conclude_restore(snapshot_exists: bool, results: &Vec<CopyResult>) -> (r: RestoreOutcome)
        ensures
            !snapshot_exists ==> r == RestoreOutcome::SnapshotMissing,
            snapshot_exists && copied_count(results@) > 0 ==> r == RestoreOutcome::Restored(
                copied_count(results@) as usize,
            ),
            snapshot_exists && copied_count(results@) == 0 ==> r == RestoreOutcome::NothingRestored,
    {
        if !snapshot_exists {
            return RestoreOutcome::SnapshotMissing;
        }
        let n = BackupService::count_copied(results);
        if n > 0 {
            RestoreOutcome::Restored(n)
        } else {
            RestoreOutcome::NothingRestored
        }
    }
}

} // verus!
