use git_series_manager::commands::{backend_result, format_patch_args, git_in, replay_order};
use git_series_manager::error::SeriesError;
use git_series_manager::run::{Action, PatchSetRun, Phase};
use git_series_manager::version_store::{latest_version, version_name};
use git_series_manager::workflow::{
    delete_commands, directory_version, interdiff_base, is_branch_entry, resolve_version,
    send_args, send_version,
};

fn strs(v: &[&str]) -> Vec<String> {
    v.iter().map(|s| s.to_string()).collect()
}

fn repo_args(a: &Action) -> Vec<String> {
    match a {
        Action::InRepo(v) => v.clone(),
        other => panic!("expected a repository command, got {:?}", other),
    }
}

fn worktree_args(a: &Action) -> Vec<String> {
    match a {
        Action::InWorktree(v) => v.clone(),
        other => panic!("expected a worktree command, got {:?}", other),
    }
}

fn fresh(older: Option<Vec<String>>) -> PatchSetRun {
    PatchSetRun::new(
        "/p/x/1".to_string(),
        None,
        "c".to_string(),
        vec![],
        "b".to_string(),
        older,
    )
}

fn ok() -> Result<String, SeriesError> {
    Ok(String::new())
}

#[test]
fn git_runs_in_repository() {
    assert_eq!(
        git_in("/repo", &strs(&["branch", "--show-current"])),
        strs(&["-C", "/repo", "branch", "--show-current"])
    );
}

#[test]
fn backend_output_is_trimmed() {
    assert_eq!(backend_result(true, "main \n"), Ok("main".to_string()));
    assert_eq!(backend_result(true, "  * main\n\n"), Ok("  * main".to_string()));
    assert_eq!(
        backend_result(false, "fatal: no\n"),
        Err(SeriesError::BackendFailure("fatal: no".to_string()))
    );
}

#[test]
fn format_patch_arguments() {
    assert_eq!(
        format_patch_args("/p/fx/2", Some(2), "tools", None, &strs(&["--base=auto"])),
        strs(&[
            "format-patch",
            "-o",
            "/p/fx/2",
            "-v",
            "2",
            "--subject-prefix=PATCH tools",
            "--cover-letter",
            "--base=auto",
        ])
    );
    assert_eq!(
        format_patch_args("/p/fx/1", None, "tools", Some("__patch_old"), &vec![]),
        strs(&[
            "format-patch",
            "-o",
            "/p/fx/1",
            "--subject-prefix=PATCH tools",
            "--cover-letter",
            "--interdiff=__patch_old",
        ])
    );
}

#[test]
fn replay_skips_cover_letter_and_sorts() {
    let names = strs(&["0002-b.patch", "v1-0000-cover-letter.patch", "0001-a.patch"]);
    assert_eq!(replay_order(&names), strs(&["0001-a.patch", "0002-b.patch"]));
}

#[test]
fn run_without_interdiff_commits() {
    let mut run = PatchSetRun::new(
        "/p/feature-x/1".to_string(),
        None,
        "tools".to_string(),
        vec![],
        "origin/master".to_string(),
        None,
    );
    assert_eq!(
        repo_args(&run.first_action()),
        strs(&["format-patch", "-o", "/p/feature-x/1", "--subject-prefix=PATCH tools", "--cover-letter"])
    );
    assert!(matches!(run.step(ok()), Action::BindCoverLetter));
    assert!(matches!(run.step(ok()), Action::Finish(Ok(()))));
    assert_eq!(run.phase, Phase::Done);
    assert!(!run.dir_live && !run.branch_live && !run.worktree_live);
}

#[test]
fn run_with_interdiff_replays_then_releases() {
    let patches = strs(&["/p/feature-x/1/0001-a.patch"]);
    let mut run = PatchSetRun::new(
        "/p/feature-x/2".to_string(),
        Some(2),
        "tools".to_string(),
        strs(&["--base=auto"]),
        "origin/master".to_string(),
        Some(patches),
    );
    assert_eq!(
        repo_args(&run.first_action()),
        strs(&["branch", "__patch_old", "origin/master"])
    );
    assert!(matches!(run.step(ok()), Action::MakeWorktreeDir));
    assert_eq!(
        repo_args(&run.step(Ok("/tmp/wt".to_string()))),
        strs(&["worktree", "add", "--detach", "/tmp/wt"])
    );
    assert_eq!(worktree_args(&run.step(ok())), strs(&["switch", "__patch_old"]));
    assert_eq!(
        worktree_args(&run.step(ok())),
        strs(&["am", "-3", "/p/feature-x/1/0001-a.patch"])
    );
    assert_eq!(
        repo_args(&run.step(ok())),
        strs(&[
            "format-patch",
            "-o",
            "/p/feature-x/2",
            "-v",
            "2",
            "--subject-prefix=PATCH tools",
            "--cover-letter",
            "--interdiff=__patch_old",
            "--base=auto",
        ])
    );
    assert_eq!(
        worktree_args(&run.step(ok())),
        strs(&["worktree", "remove", "/tmp/wt"])
    );
    assert_eq!(repo_args(&run.step(ok())), strs(&["branch", "-D", "__patch_old"]));
    assert!(!run.worktree_live);
    assert!(matches!(run.step(ok()), Action::BindCoverLetter));
    assert!(!run.branch_live && !run.worktree_live);
    assert!(matches!(run.step(ok()), Action::Finish(Ok(()))));
}

#[test]
fn run_with_failed_replay_still_releases() {
    let mut run = fresh(Some(strs(&["/p/1/0001-a.patch"])));
    run.first_action();
    run.step(ok());
    run.step(Ok("/tmp/wt".to_string()));
    run.step(ok());
    run.step(ok());
    let a = run.step(Err(SeriesError::BackendFailure("conflict".to_string())));
    assert_eq!(worktree_args(&a), strs(&["worktree", "remove", "/tmp/wt"]));
    let a = run.step(ok());
    assert_eq!(repo_args(&a), strs(&["branch", "-D", "__patch_old"]));
    let a = run.step(ok());
    assert!(matches!(a, Action::Finish(Err(SeriesError::ReplayFailed(ref m))) if m == "conflict"));
    assert!(!run.branch_live && !run.worktree_live && !run.dir_live);
}

#[test]
fn run_keeps_first_failure_over_cleanup_failure() {
    let mut run = fresh(Some(vec![]));
    run.first_action();
    run.step(ok());
    run.step(Ok("/tmp/wt".to_string()));
    run.step(ok());
    let a = run.step(Err(SeriesError::BackendFailure("switch".to_string())));
    assert_eq!(worktree_args(&a), strs(&["worktree", "remove", "/tmp/wt"]));
    run.step(Err(SeriesError::BackendFailure("remove".to_string())));
    let a = run.step(ok());
    assert!(matches!(a, Action::Finish(Err(SeriesError::BackendFailure(ref m))) if m == "switch"));
}

#[test]
fn run_rolls_back_version_dir_on_bind_failure() {
    let mut run = fresh(None);
    run.first_action();
    assert!(matches!(run.step(ok()), Action::BindCoverLetter));
    assert!(matches!(
        run.step(Err(SeriesError::MissingTitlePrefix)),
        Action::RemoveVersionDir
    ));
    assert!(matches!(
        run.step(ok()),
        Action::Finish(Err(SeriesError::MissingTitlePrefix))
    ));
}

#[test]
fn run_rolls_back_failed_generation() {
    let mut run = fresh(None);
    run.first_action();
    let a = run.step(Err(SeriesError::BackendFailure("bad".to_string())));
    assert!(matches!(a, Action::RemoveVersionDir));
    assert!(matches!(run.step(ok()), Action::Finish(Err(SeriesError::BackendFailure(_)))));
}

#[test]
fn run_with_failed_branch_creation_holds_nothing() {
    let mut run = fresh(Some(vec![]));
    run.first_action();
    let a = run.step(Err(SeriesError::LaunchFailure("no git".to_string())));
    assert!(matches!(a, Action::Finish(Err(SeriesError::LaunchFailure(_)))));
    assert!(!run.branch_live && !run.worktree_live && !run.dir_live);
}

#[test]
fn version_resolution() {
    assert_eq!(resolve_version(Some(4), Some(9)), Ok(Some(4)));
    assert_eq!(resolve_version(None, Some(1)), Ok(Some(2)));
    assert_eq!(resolve_version(None, None), Ok(None));
    assert_eq!(resolve_version(None, Some(u64::MAX)), Err(SeriesError::VersionOverflow));
    assert_eq!(directory_version(None), 1);
    assert_eq!(directory_version(Some(2)), 2);
}

#[test]
fn send_decisions() {
    assert_eq!(send_version(Some(3), None, "fx"), Ok(3));
    assert_eq!(send_version(None, Some(2), "fx"), Ok(2));
    assert_eq!(
        send_version(None, None, "fx"),
        Err(SeriesError::NoPatchSetForBranch("fx".to_string()))
    );
    assert_eq!(
        send_args(&strs(&["--to=list@x"]), "/p/fx/2"),
        strs(&["send-email", "--to=list@x", "/p/fx/2"])
    );
}

#[test]
fn interdiff_base_defaults() {
    assert_eq!(interdiff_base(Some("a".to_string()), Some("b".to_string())), "a");
    assert_eq!(interdiff_base(None, Some("b".to_string())), "b");
    assert_eq!(interdiff_base(None, None), "origin/master");
}

#[test]
fn branch_entries_skip_config() {
    assert!(!is_branch_entry("config.toml"));
    assert!(is_branch_entry("feature-x"));
    assert!(is_branch_entry("config.tom"));
}

#[test]
fn delete_plans() {
    assert_eq!(
        delete_commands("fx", "fx", true, false, false, None),
        vec![
            strs(&["push", "-d", "origin", "fx"]),
            strs(&["switch", "master"]),
            strs(&["branch", "-d", "fx"]),
        ]
    );
    assert_eq!(
        delete_commands("fx", "main", true, true, true, Some("dev")),
        vec![strs(&["branch", "-D", "fx"])]
    );
}

#[test]
fn end_to_end_feature_x_two_versions() {
    // No prior version: the first patch set goes to directory 1, untagged.
    let latest = latest_version(&vec![]).unwrap();
    let version = resolve_version(None, latest).unwrap();
    assert_eq!(version, None);
    let number = directory_version(version);
    assert_eq!(number, 1);
    let dir = format!("/repo/.patches/feature-x/{}", version_name(number));
    let args = format_patch_args(&dir, version, "tools", None, &vec![]);
    assert_eq!(args[..3], strs(&["format-patch", "-o", "/repo/.patches/feature-x/1"])[..]);
    let mut run = PatchSetRun::new(dir.clone(), version, "tools".to_string(), vec![], interdiff_base(None, None), None);
    assert_eq!(repo_args(&run.first_action()), args);
    assert!(matches!(run.step(ok()), Action::BindCoverLetter));
    assert!(matches!(run.step(ok()), Action::Finish(Ok(()))));

    // Version 2 against version 1, whose patches replay on origin/master.
    let latest = latest_version(&strs(&["1", "cover-letter"])).unwrap();
    assert_eq!(latest, Some(1));
    let version = resolve_version(Some(2), latest).unwrap();
    let old = replay_order(&strs(&["v1-0000-cover-letter.patch", "v1-0001-fix.patch"]));
    assert_eq!(old, strs(&["v1-0001-fix.patch"]));
    for apply_ok in [true, false] {
        let mut run = PatchSetRun::new(
            "/repo/.patches/feature-x/2".to_string(),
            version,
            "tools".to_string(),
            vec![],
            interdiff_base(None, None),
            Some(old.clone()),
        );
        assert_eq!(
            repo_args(&run.first_action()),
            strs(&["branch", "__patch_old", "origin/master"])
        );
        run.step(ok());
        run.step(Ok("/tmp/wt".to_string()));
        run.step(ok());
        assert_eq!(
            worktree_args(&run.step(ok())),
            strs(&["am", "-3", "v1-0001-fix.patch"])
        );
        if apply_ok {
            let gen = repo_args(&run.step(ok()));
            assert_eq!(gen.last().unwrap(), "--interdiff=__patch_old");
            assert!(gen.contains(&"-v".to_string()) && gen.contains(&"2".to_string()));
            run.step(ok());
            run.step(ok());
        } else {
            run.step(Err(SeriesError::BackendFailure("conflict".to_string())));
            run.step(ok());
        }
        assert!(!run.worktree_live && run.branch_live);
        let last = loop {
            match run.step(ok()) {
                Action::Finish(r) => break r,
                _ => continue,
            }
        };
        assert_eq!(last.is_ok(), apply_ok);
        assert!(!run.branch_live && !run.worktree_live && !run.dir_live);
    }
}
