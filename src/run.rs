//! One patch-set generation as a state machine. The caller performs each
//! action it returns and hands back the outcome; the machine owns the order of
//! the steps and the release of the three scoped resources: the transient
//! branch, the transient worktree and the version directory being written.
use vstd::prelude::*;
use crate::error::SeriesError;
use crate::version_store::names_of;
use crate::commands::{format_patch_args, format_patch_spec, push_str};

verus! {

/// Name of the transient branch that holds the older version replayed on the base.
pub open spec fn temp_branch() -> Seq<char> {
    "__patch_old"@
}

/// Where a run stands.
#[derive(Debug, Clone, Copy, PartialEq, Eq, Structural)]
pub enum Phase {
    /// Creating the transient branch on the base.
    CreateBranch,
    /// Making the directory the transient worktree goes in.
    MakeWorktreeDir,
    /// Adding the transient worktree.
    AddWorktree,
    /// Switching the worktree to the transient branch.
    SwitchWorktree,
    /// Applying the older version's patches in the worktree.
    ReplayOld,
    /// Generating the patch set into the version directory.
    Generate,
    /// Removing the transient worktree.
    RemoveWorktree,
    /// Deleting the transient branch.
    DeleteBranch,
    /// Binding the operator's cover letter into the generated one.
    BindCoverLetter,
    /// Removing the version directory after a failure.
    Rollback,
    /// Over.
    Done,
}

/// What the caller must do next.
#[derive(Debug)]
pub enum Action {
    /// Run git with these arguments in the repository.
    InRepo(Vec<String>),
    /// Run git with these arguments in the transient worktree.
    InWorktree(Vec<String>),
    /// Create an empty directory for the transient worktree; its path is the outcome.
    MakeWorktreeDir,
    /// Have the operator edit the template and bind it into the generated cover letter.
    BindCoverLetter,
    /// Remove the version directory and everything in it.
    RemoveVersionDir,
    /// The run is over, with this result.
    Finish(Result<(), SeriesError>),
}

/// A patch-set generation in progress.
pub struct PatchSetRun {
    pub phase: Phase,
    /// Whether an interdiff against an older version is computed.
    pub interdiff: bool,
    /// The reference the older version is replayed on.
    pub base: String,
    /// The older version's patch files, in the order they are applied.
    pub patches: Vec<String>,
    /// The version directory the patch set is generated into.
    pub version_dir: String,
    /// The version tag of the patch set, if it carries one.
    pub version: Option<u64>,
    /// The component named in the subject prefix.
    pub component: String,
    /// The caller's own flags for the patch generation.
    pub extra_args: Vec<String>,
    /// The transient worktree's path, once made.
    pub worktree: String,
    /// The transient branch exists and is not yet released.
    pub branch_live: bool,
    /// The transient worktree exists and is not yet released.
    pub worktree_live: bool,
    /// The version directory may hold files and is neither kept nor removed yet.
    pub dir_live: bool,
    /// The first failure of the run.
    pub failure: Option<SeriesError>,
}

pub open spec fn rank(p: Phase) -> nat {
    match p {
        Phase::CreateBranch => 10,
        Phase::MakeWorktreeDir => 9,
        Phase::AddWorktree => 8,
        Phase::SwitchWorktree => 7,
        Phase::ReplayOld => 6,
        Phase::Generate => 5,
        Phase::RemoveWorktree => 4,
        Phase::DeleteBranch => 3,
        Phase::BindCoverLetter => 2,
        Phase::Rollback => 1,
        Phase::Done => 0,
    }
}

pub open spec fn create_branch_cmd(base: Seq<char>) -> Seq<Seq<char>> {
    seq!["branch"@, temp_branch(), base]
}

pub open spec fn add_worktree_cmd(path: Seq<char>) -> Seq<Seq<char>> {
    seq!["worktree"@, "add"@, "--detach"@, path]
}

pub open spec fn switch_cmd() -> Seq<Seq<char>> {
    seq!["switch"@, temp_branch()]
}

pub open spec fn replay_cmd(patches: Seq<Seq<char>>) -> Seq<Seq<char>> {
    seq!["am"@, "-3"@] + patches
}

/// The patch generation of a run, with the interdiff reference when the run
/// computes one.
pub open spec fn generate_cmd(r: PatchSetRun) -> Seq<Seq<char>> {
    format_patch_spec(
        r.version_dir@,
        r.version,
        r.component@,
        if r.interdiff {
            Some(temp_branch())
        } else {
            None
        },
        names_of(r.extra_args@),
    )
}

pub open spec fn remove_worktree_cmd(path: Seq<char>) -> Seq<Seq<char>> {
    seq!["worktree"@, "remove"@, path]
}

pub open spec fn delete_branch_cmd() -> Seq<Seq<char>> {
    seq!["branch"@, "-D"@, temp_branch()]
}

/// The failure recorded after `e`: the first failure stays the one reported.
pub open spec fn first_failure(f: Option<SeriesError>, e: SeriesError) -> Option<SeriesError> {
    match f {
        Some(x) => Some(x),
        None => Some(e),
    }
}

/// A failure to replay the older version, named as such.
pub open spec fn replay_failure(e: SeriesError) -> SeriesError {
    match e {
        SeriesError::BackendFailure(m) => SeriesError::ReplayFailed(m),
        SeriesError::LaunchFailure(m) => SeriesError::ReplayFailed(m),
        other => other,
    }
}

/// The releases still owed, in order: the worktree, then the branch, then
/// the version directory, removed after a failure and otherwise bound.
pub open spec fn release_phase(
    branch_live: bool,
    worktree_live: bool,
    dir_live: bool,
    failed: bool,
) -> Phase {
    if worktree_live {
        Phase::RemoveWorktree
    } else if branch_live {
        Phase::DeleteBranch
    } else if dir_live {
        if failed {
            Phase::Rollback
        } else {
            Phase::BindCoverLetter
        }
    } else {
        Phase::Done
    }
}

/// The live flags and the recorded failure of `f`.
pub open spec fn holds(
    f: PatchSetRun,
    branch_live: bool,
    worktree_live: bool,
    dir_live: bool,
    failure: Option<SeriesError>,
) -> bool {
    f.branch_live == branch_live && f.worktree_live == worktree_live && f.dir_live == dir_live
        && f.failure == failure
}

/// The action that starts the release `release_phase` names, for a run
/// whose worktree path is `w` and whose first failure is `fail`.
pub open spec fn release_action(p: Phase, w: Seq<char>, fail: Option<SeriesError>, a: Action) -> bool {
    match p {
        Phase::RemoveWorktree => a matches Action::InWorktree(v) && names_of(v@)
            == remove_worktree_cmd(w),
        Phase::DeleteBranch => a matches Action::InRepo(v) && names_of(v@) == delete_branch_cmd(),
        Phase::Rollback => a is RemoveVersionDir,
        Phase::BindCoverLetter => a is BindCoverLetter,
        _ => a == Action::Finish(Err(fail.unwrap())),
    }
}

/// One step of a run: from `o`, on `outcome`, to `f` with action `a`.
pub open spec fn transition(
    o: PatchSetRun,
    outcome: Result<String, SeriesError>,
    f: PatchSetRun,
    a: Action,
) -> bool {
    match (o.phase, outcome) {
        (Phase::CreateBranch, Ok(_)) => f.phase == Phase::MakeWorktreeDir && holds(
            f,
            true,
            false,
            false,
            None,
        ) && f.worktree@ == o.worktree@ && a is MakeWorktreeDir,
        (Phase::CreateBranch, Err(e)) => f.phase == Phase::Done && holds(f, false, false, false, None)
            && a == Action::Finish(Err(e)),
        (Phase::MakeWorktreeDir, Ok(p)) => f.phase == Phase::AddWorktree && holds(
            f,
            true,
            false,
            false,
            None,
        ) && f.worktree@ == p@ && (a matches Action::InRepo(v) && names_of(v@) == add_worktree_cmd(
            p@,
        )),
        (Phase::MakeWorktreeDir, Err(e)) => f.phase == Phase::DeleteBranch && holds(
            f,
            true,
            false,
            false,
            Some(e),
        ) && f.worktree@ == o.worktree@ && (a matches Action::InRepo(v) && names_of(v@)
            == delete_branch_cmd()),
        (Phase::AddWorktree, Ok(_)) => f.phase == Phase::SwitchWorktree && holds(
            f,
            true,
            true,
            false,
            None,
        ) && f.worktree@ == o.worktree@ && (a matches Action::InWorktree(v) && names_of(v@)
            == switch_cmd()),
        (Phase::AddWorktree, Err(e)) => f.phase == Phase::DeleteBranch && holds(
            f,
            true,
            false,
            false,
            Some(e),
        ) && f.worktree@ == o.worktree@ && (a matches Action::InRepo(v) && names_of(v@)
            == delete_branch_cmd()),
        (Phase::SwitchWorktree, Ok(_)) => f.phase == Phase::ReplayOld && holds(
            f,
            true,
            true,
            false,
            None,
        ) && f.worktree@ == o.worktree@ && (a matches Action::InWorktree(v) && names_of(v@)
            == replay_cmd(names_of(o.patches@))),
        (Phase::SwitchWorktree, Err(e)) => f.phase == Phase::RemoveWorktree && holds(
            f,
            true,
            true,
            false,
            Some(e),
        ) && f.worktree@ == o.worktree@ && (a matches Action::InWorktree(v) && names_of(v@)
            == remove_worktree_cmd(o.worktree@)),
        (Phase::ReplayOld, Ok(_)) => f.phase == Phase::Generate && holds(f, true, true, false, None)
            && f.worktree@ == o.worktree@ && (a matches Action::InRepo(v) && names_of(v@)
            == generate_cmd(o)),
        (Phase::ReplayOld, Err(e)) => f.phase == Phase::RemoveWorktree && holds(
            f,
            true,
            true,
            false,
            Some(replay_failure(e)),
        ) && f.worktree@ == o.worktree@ && (a matches Action::InWorktree(v) && names_of(v@)
            == remove_worktree_cmd(o.worktree@)),
        (Phase::Generate, r) => {
            let fail = match r {
                Ok(_) => o.failure,
                Err(e) => first_failure(o.failure, e),
            };
            let p = release_phase(o.branch_live, o.worktree_live, true, fail is Some);
            f.phase == p && holds(f, o.branch_live, o.worktree_live, true, fail) && f.worktree@
                == o.worktree@ && release_action(p, o.worktree@, fail, a)
        },
        (Phase::RemoveWorktree, r) => {
            let fail = match r {
                Ok(_) => o.failure,
                Err(e) => first_failure(o.failure, e),
            };
            f.phase == Phase::DeleteBranch && holds(f, true, false, o.dir_live, fail) && f.worktree@
                == o.worktree@ && release_action(Phase::DeleteBranch, o.worktree@, fail, a)
        },
        (Phase::DeleteBranch, r) => {
            let fail = match r {
                Ok(_) => o.failure,
                Err(e) => first_failure(o.failure, e),
            };
            let p = release_phase(false, false, o.dir_live, fail is Some);
            f.phase == p && holds(
                f,
                false,
                false,
                o.dir_live,
                if p == Phase::Done {
                    None
                } else {
                    fail
                },
            ) && f.worktree@ == o.worktree@ && release_action(p, o.worktree@, fail, a)
        },
        (Phase::BindCoverLetter, Ok(_)) => f.phase == Phase::Done && holds(
            f,
            false,
            false,
            false,
            None,
        ) && a == Action::Finish(Ok(())),
        (Phase::BindCoverLetter, Err(e)) => f.phase == Phase::Rollback && holds(
            f,
            false,
            false,
            true,
            Some(e),
        ) && a is RemoveVersionDir,
        (Phase::Rollback, _) => f.phase == Phase::Done && holds(f, false, false, false, None) && a
            == Action::Finish(Err(o.failure.unwrap())),
        (Phase::Done, _) => false,
    }
}

impl PatchSetRun {
    /// The resources a phase may hold, and the order they are released in:
    /// the worktree never outlives the branch, nothing is held once done.
    pub open spec fn wf(&self) -> bool {
        &&& self.worktree_live ==> self.branch_live
        &&& (self.branch_live || self.worktree_live) ==> self.interdiff
        &&& match self.phase {
            Phase::CreateBranch => self.interdiff && !self.branch_live && !self.dir_live
                && self.failure is None,
            Phase::MakeWorktreeDir => self.branch_live && !self.worktree_live && !self.dir_live
                && self.failure is None,
            Phase::AddWorktree => self.branch_live && !self.worktree_live && !self.dir_live
                && self.failure is None,
            Phase::SwitchWorktree => self.worktree_live && !self.dir_live && self.failure is None,
            Phase::ReplayOld => self.worktree_live && !self.dir_live && self.failure is None,
            Phase::Generate => self.worktree_live == self.interdiff && !self.dir_live
                && self.failure is None,
            Phase::RemoveWorktree => self.worktree_live && (self.dir_live || self.failure is Some),
            Phase::DeleteBranch => self.branch_live && !self.worktree_live && (self.dir_live
                || self.failure is Some),
            Phase::BindCoverLetter => !self.branch_live && self.dir_live && self.failure is None,
            Phase::Rollback => !self.branch_live && self.dir_live && self.failure is Some,
            Phase::Done => !self.branch_live && !self.dir_live && self.failure is None,
        }
    }

    /// Nothing that the run acquired is still held.
    pub open spec fn released(&self) -> bool {
        !self.branch_live && !self.worktree_live && !self.dir_live
    }

    /// A run that generates into a fresh version directory; with `older`,
    /// the older version's patches are first replayed on `base` for an
    /// interdiff.
    pub fn new(
        version_dir: String,
        version: Option<u64>,
        component: String,
        extra_args: Vec<String>,
        base: String,
        older: Option<Vec<String>>,
    ) -> (r: Self)
        ensures
            r.wf(),
            r.interdiff == older is Some,
            r.interdiff ==> r.phase == Phase::CreateBranch,
            !r.interdiff ==> r.phase == Phase::Generate,
            r.released(),
            r.failure is None,
            r.version_dir@ == version_dir@,
            r.version == version,
            r.component@ == component@,
            r.extra_args@ == extra_args@,
            r.base@ == base@,
            older matches Some(p) ==> r.patches@ == p@,
    {
        let (interdiff, patches) = match older {
            Some(p) => (true, p),
            None => (false, Vec::new()),
        };
        PatchSetRun {
            phase: if interdiff { Phase::CreateBranch } else { Phase::Generate },
            interdiff,
            base,
            patches,
            version_dir,
            version,
            component,
            extra_args,
            worktree: String::new(),
            branch_live: false,
            worktree_live: false,
            dir_live: false,
            failure: None,
        }
    }

    /// The first action of a fresh run.
    pub fn first_action(&self) -> (a: Action)
        requires
            self.phase == Phase::CreateBranch || self.phase == Phase::Generate,
        ensures
            self.phase == Phase::CreateBranch ==> (a matches Action::InRepo(v) && names_of(v@)
                == create_branch_cmd(self.base@)),
            self.phase == Phase::Generate ==> (a matches Action::InRepo(v) && names_of(v@)
                == generate_cmd(*self)),
    {
        if self.phase == Phase::CreateBranch {
            Action::InRepo(three("branch", "__patch_old", self.base.as_str()))
        } else {
            Action::InRepo(self.generate_args())
        }
    }

    fn generate_args(&self) -> (r: Vec<String>)
        ensures
            names_of(r@) == generate_cmd(*self),
    {
        proof {
            reveal_strlit("__patch_old");
        }
        let interdiff = if self.interdiff {
            Some("__patch_old")
        } else {
            None
        };
        format_patch_args(
            self.version_dir.as_str(),
            self.version,
            self.component.as_str(),
            interdiff,
            &self.extra_args,
        )
    }

    /// What a run was started with stays as it was.
    pub open spec fn keeps_data(&self, o: PatchSetRun) -> bool {
        &&& self.interdiff == o.interdiff
        &&& self.base@ == o.base@
        &&& self.patches@ == o.patches@
        &&& self.version_dir@ == o.version_dir@
        &&& self.version == o.version
        &&& self.component@ == o.component@
        &&& self.extra_args@ == o.extra_args@
    }

    fn record(&mut self, e: SeriesError)
        ensures
            final(self).failure == first_failure(old(self).failure, e),
            final(self).phase == old(self).phase,
            final(self).keeps_data(*old(self)),
            final(self).branch_live == old(self).branch_live,
            final(self).worktree_live == old(self).worktree_live,
            final(self).dir_live == old(self).dir_live,
            final(self).worktree@ == old(self).worktree@,
    {
        if self.failure.is_none() {
            self.failure = Some(e);
        }
    }

    /// Releases the worktree, or if there is none the branch, or goes on
    /// with the version directory.
    fn release_next(&mut self) -> (a: Action)
        requires
            old(self).worktree_live ==> old(self).branch_live,
            (old(self).branch_live || old(self).worktree_live) ==> old(self).interdiff,
            old(self).dir_live || old(self).failure is Some,
        ensures
            final(self).wf(),
            rank(final(self).phase) <= 4,
            !old(self).worktree_live ==> rank(final(self).phase) <= 3,
            !old(self).branch_live ==> rank(final(self).phase) <= 2,
            !old(self).branch_live && old(self).failure is Some ==> rank(final(self).phase) <= 1,
            final(self).phase != Phase::Done ==> final(self).failure == old(self).failure,
            final(self).phase == Phase::Done ==> final(self).failure is None,
            final(self).branch_live == old(self).branch_live,
            final(self).worktree_live == old(self).worktree_live,
            final(self).dir_live == old(self).dir_live,
            final(self).worktree@ == old(self).worktree@,
            final(self).keeps_data(*old(self)),
            old(self).worktree_live ==> final(self).phase == Phase::RemoveWorktree
                && (a matches Action::InWorktree(v) && names_of(v@) == remove_worktree_cmd(old(self).worktree@)),
            !old(self).worktree_live && old(self).branch_live ==> final(self).phase == Phase::DeleteBranch
                && (a matches Action::InRepo(v) && names_of(v@) == delete_branch_cmd()),
            !old(self).branch_live && old(self).dir_live && old(self).failure is None ==> (final(self).phase
                == Phase::BindCoverLetter && a is BindCoverLetter),
            !old(self).branch_live && old(self).dir_live && old(self).failure is Some ==> (final(self).phase
                == Phase::Rollback && a is RemoveVersionDir),
            !old(self).branch_live && !old(self).dir_live ==> (final(self).phase == Phase::Done
                && a == Action::Finish(Err(old(self).failure.unwrap()))),
    {
        if self.worktree_live {
            self.phase = Phase::RemoveWorktree;
            Action::InWorktree(three("worktree", "remove", self.worktree.as_str()))
        } else if self.branch_live {
            self.phase = Phase::DeleteBranch;
            Action::InRepo(three("branch", "-D", "__patch_old"))
        } else if self.dir_live {
            if self.failure.is_some() {
                self.phase = Phase::Rollback;
                Action::RemoveVersionDir
            } else {
                self.phase = Phase::BindCoverLetter;
                Action::BindCoverLetter
            }
        } else {
            self.phase = Phase::Done;
            Action::Finish(Err(self.failure.take().unwrap()))
        }
    }

    /// Takes the outcome of the last action and returns the next one.
    pub fn step(&mut self, outcome: Result<String, SeriesError>) -> (a: Action)
        requires
            old(self).wf(),
            old(self).phase != Phase::Done,
        ensures
            final(self).wf(),
            rank(final(self).phase) < rank(old(self).phase),
            a is Finish <==> final(self).phase == Phase::Done,
            final(self).phase == Phase::Done ==> final(self).released(),
            final(self).interdiff == old(self).interdiff,
            a matches Action::Finish(Ok(_)) ==> old(self).phase == Phase::BindCoverLetter
                && outcome is Ok,
            old(self).phase == Phase::BindCoverLetter && outcome is Ok ==> a == Action::Finish(
                Ok(()),
            ),
            a matches Action::Finish(Err(e)) ==> (old(self).failure matches Some(f) ==> e == f),
            final(self).keeps_data(*old(self)),
            old(self).branch_live && !final(self).branch_live ==> old(self).phase
                == Phase::DeleteBranch,
            old(self).worktree_live && !final(self).worktree_live ==> old(self).phase
                == Phase::RemoveWorktree,
            !old(self).branch_live && final(self).branch_live ==> old(self).phase
                == Phase::CreateBranch,
            outcome is Ok && old(self).failure is None ==> final(self).failure is None,
            transition(*old(self), outcome, *final(self), a),
    {
        match self.phase {
            Phase::CreateBranch => match outcome {
                Ok(_) => {
                    self.branch_live = true;
                    self.phase = Phase::MakeWorktreeDir;
                    Action::MakeWorktreeDir
                },
                Err(e) => {
                    self.phase = Phase::Done;
                    Action::Finish(Err(e))
                },
            },
            Phase::MakeWorktreeDir => match outcome {
                Ok(p) => {
                    let a = Action::InRepo(four("worktree", "add", "--detach", p.as_str()));
                    self.worktree = p;
                    self.phase = Phase::AddWorktree;
                    a
                },
                Err(e) => {
                    self.record(e);
                    self.release_next()
                },
            },
            Phase::AddWorktree => match outcome {
                Ok(_) => {
                    self.worktree_live = true;
                    self.phase = Phase::SwitchWorktree;
                    let mut v: Vec<String> = Vec::new();
                    v.push(String::from_str("switch"));
                    v.push(String::from_str("__patch_old"));
                    assert(names_of(v@) =~= switch_cmd());
                    Action::InWorktree(v)
                },
                Err(e) => {
                    self.record(e);
                    self.release_next()
                },
            },
            Phase::SwitchWorktree => match outcome {
                Ok(_) => {
                    self.phase = Phase::ReplayOld;
                    let mut v: Vec<String> = Vec::new();
                    v.push(String::from_str("am"));
                    v.push(String::from_str("-3"));
                    let ghost head = v@;
                    let rest = copy_strings(&self.patches);
                    let mut k: usize = 0;
                    while k < rest.len()
                        invariant
                            k <= rest@.len(),
                            names_of(v@) == names_of(head) + names_of(rest@.subrange(0, k as int)),
                        decreases rest@.len() - k,
                    {
                        push_str(&mut v, rest[k].as_str());
                        assert(names_of(rest@.subrange(0, k + 1)) =~= names_of(rest@.subrange(0, k as int)).push(rest@[k as int]@));
                        assert(names_of(v@) =~= names_of(head) + names_of(rest@.subrange(0, k + 1)));
                        k = k + 1;
                    }
                    assert(rest@.subrange(0, k as int) =~= rest@);
                    assert(names_of(v@) =~= replay_cmd(names_of(self.patches@)));
                    Action::InWorktree(v)
                },
                Err(e) => {
                    self.record(e);
                    self.release_next()
                },
            },
            Phase::ReplayOld => match outcome {
                Ok(_) => {
                    self.phase = Phase::Generate;
                    Action::InRepo(self.generate_args())
                },
                Err(e) => {
                    let e = match e {
                        SeriesError::BackendFailure(m) => SeriesError::ReplayFailed(m),
                        SeriesError::LaunchFailure(m) => SeriesError::ReplayFailed(m),
                        other => other,
                    };
                    self.record(e);
                    self.release_next()
                },
            },
            Phase::Generate => {
                self.dir_live = true;
                match outcome {
                    Ok(_) => {},
                    Err(e) => self.record(e),
                }
                self.release_next()
            },
            Phase::RemoveWorktree => {
                self.worktree_live = false;
                match outcome {
                    Ok(_) => {},
                    Err(e) => self.record(e),
                }
                self.release_next()
            },
            Phase::DeleteBranch => {
                self.branch_live = false;
                match outcome {
                    Ok(_) => {},
                    Err(e) => self.record(e),
                }
                self.release_next()
            },
            Phase::BindCoverLetter => match outcome {
                Ok(_) => {
                    self.dir_live = false;
                    self.phase = Phase::Done;
                    Action::Finish(Ok(()))
                },
                Err(e) => {
                    self.record(e);
                    self.release_next()
                },
            },
            Phase::Rollback => {
                self.dir_live = false;
                self.release_next()
            },
            Phase::Done => Action::Finish(Ok(())),
        }
    }
}

/// Whatever the outcomes were, a finished run holds nothing it acquired: the
/// transient worktree and the transient branch are released and the version
/// directory is either kept or removed. At no point does a run hold the
/// worktree without the branch it is checked out on, so the worktree is
/// always released first.
pub proof fn lemma_finished_run_released(r: PatchSetRun)
    requires
        r.wf(),
    ensures
        r.phase == Phase::Done ==> r.released(),
        r.worktree_live ==> r.branch_live,
{
}

/// A run that has not failed stays unfailed on a successful outcome, and
/// finishes only with success: since every step lowers the phase's rank, a
/// run in which every outcome succeeds ends in `Finish(Ok(()))`.
pub proof fn lemma_success_stays_success(
    o: PatchSetRun,
    outcome: Result<String, SeriesError>,
    f: PatchSetRun,
    a: Action,
)
    requires
        o.wf(),
        o.phase != Phase::Done,
        outcome is Ok,
        o.failure is None,
        transition(o, outcome, f, a),
    ensures
        f.failure is None,
        a is Finish ==> a == Action::Finish(Ok(())),
{
}

fn four(a: &str, b: &str, c: &str, d: &str) -> (r: Vec<String>)
    ensures
        names_of(r@) == seq![a@, b@, c@, d@],
{
    let mut r: Vec<String> = Vec::new();
    r.push(String::from_str(a));
    r.push(String::from_str(b));
    r.push(String::from_str(c));
    r.push(String::from_str(d));
    assert(names_of(r@) =~= seq![a@, b@, c@, d@]);
    r
}

fn three(a: &str, b: &str, c: &str) -> (r: Vec<String>)
    ensures
        names_of(r@) == seq![a@, b@, c@],
{
    let mut r: Vec<String> = Vec::new();
    r.push(String::from_str(a));
    r.push(String::from_str(b));
    r.push(String::from_str(c));
    assert(names_of(r@) =~= seq![a@, b@, c@]);
    r
}

fn copy_strings(v: &Vec<String>) -> (r: Vec<String>)
    ensures
        names_of(r@) == names_of(v@),
{
    let mut r: Vec<String> = Vec::new();
    let mut k: usize = 0;
    while k < v.len()
        invariant
            k <= v@.len(),
            names_of(r@) == names_of(v@.subrange(0, k as int)),
        decreases v@.len() - k,
    {
        push_str(&mut r, v[k].as_str());
        assert(names_of(v@.subrange(0, k + 1)) =~= names_of(v@.subrange(0, k as int)).push(v@[k as int]@));
        k = k + 1;
    }
    assert(v@.subrange(0, k as int) =~= v@);
    r
}

} // verus!
