//! The workspace: its fixed places, checkpoints, and preparation.

use hako::flow::{WorkspaceConfig, WorkspaceMode};
use hako::prepare::{prepare, Action, Outcome, PrepareTurn, Preparation, MOUNT_LOCK_FILE};
use hako::run::RunId;
use hako::sandbox::WorkspaceMount;
use hako::workspace::{
    push_args, Checkpoint, CheckpointTurn, CommandOutput, Workspace, WorkspaceError,
    PROGRESS_FILE, REPORT_FILE, SCRATCH_DIR,
};

#[test]
fn workspace_the_progress_file_lives_in_the_scratch_dir() {
    assert!(std::path::Path::new(PROGRESS_FILE).starts_with(SCRATCH_DIR));
}

#[test]
fn workspace_the_mount_lands_the_workspace_at_the_fixed_guest_root() {
    let workspace = Workspace::at("/srv/runs/r1/workspace");
    assert_eq!(
        workspace.mount(),
        WorkspaceMount {
            host: "/srv/runs/r1/workspace".into(),
            guest: "/workspace".into(),
        }
    );
}

#[test]
fn mod_the_progress_file_lives_in_the_scratch_dir() {
    assert!(std::path::Path::new(PROGRESS_FILE).starts_with(SCRATCH_DIR));
    assert!(std::path::Path::new(REPORT_FILE).starts_with(SCRATCH_DIR));
}

#[test]
fn mod_the_mount_lands_the_workspace_at_the_fixed_guest_root() {
    let workspace = Workspace::at("/srv/runs/r1/workspace");
    assert_eq!(
        workspace.mount(),
        WorkspaceMount {
            host: "/srv/runs/r1/workspace".into(),
            guest: "/workspace".into(),
        }
    );
    assert_eq!(
        workspace.guest_report_path(),
        "/workspace/.hako/report.json"
    );
    assert_eq!(
        workspace.guest_progress_path(),
        "/workspace/.hako/progress.json"
    );
    assert_eq!(
        workspace.domain_prompt_path(),
        "/srv/runs/r1/workspace/PROMPT.md"
    );
}

fn output(code: i32, stdout: &str, stderr: &str) -> CommandOutput {
    CommandOutput {
        code: Some(code),
        stdout: stdout.as_bytes().to_vec(),
        stderr: stderr.as_bytes().to_vec(),
    }
}

/// Answers a checkpoint's git commands in order and gives the commands and
/// what the checkpoint came to.
fn checkpointed(
    outputs: Vec<CommandOutput>,
) -> (Vec<Vec<String>>, Result<Option<String>, WorkspaceError>) {
    let (mut checkpoint, args) = Checkpoint::begin("hako: iteration 1");
    let mut commands = vec![args];
    for output in outputs {
        match checkpoint.answer(output) {
            CheckpointTurn::Git(next, args) => {
                commands.push(args);
                checkpoint = next;
            }
            CheckpointTurn::End(end) => return (commands, end),
        }
    }
    panic!("the checkpoint did not end");
}

#[test]
fn workspace_a_checkpoint_commits_the_changes_and_reports_the_hash() {
    let (commands, end) = checkpointed(vec![
        output(0, "", ""),
        output(1, "", ""),
        output(0, "", ""),
        output(0, "abc123\n", ""),
    ]);
    assert_eq!(end, Ok(Some("abc123".to_owned())));
    assert_eq!(commands[0], ["add", "-A", "--", ".", ":(exclude).hako"]);
    assert_eq!(commands[1], ["diff", "--cached", "--quiet"]);
    assert_eq!(
        commands[2],
        [
            "-c",
            "user.name=hako",
            "-c",
            "user.email=hako@localhost",
            "commit",
            "--quiet",
            "--no-verify",
            "--no-gpg-sign",
            "-m",
            "hako: iteration 1",
        ]
    );
    assert_eq!(commands[3], ["rev-parse", "HEAD"]);
}

#[test]
fn workspace_an_unchanged_workspace_checkpoints_to_nothing() {
    let (commands, end) = checkpointed(vec![output(0, "", ""), output(0, "", "")]);
    assert_eq!(end, Ok(None));
    assert_eq!(commands.len(), 2);
}

#[test]
fn workspace_a_checkpoint_outside_a_repository_fails() {
    let (_, end) = checkpointed(vec![output(128, "", "fatal: not a git repository\n")]);
    let error = end.unwrap_err().to_text();
    assert_eq!(
        error,
        "workspace failure: git add -A -- . :(exclude).hako failed: fatal: not a git repository"
    );
    let (_, end) = checkpointed(vec![output(0, "", ""), output(129, "", "usage\n")]);
    assert_eq!(
        end.unwrap_err().to_text(),
        "workspace failure: git diff --cached failed: usage"
    );
}

#[test]
fn a_workspace_without_a_push_target_pushes_nowhere() {
    let mut workspace = Workspace::at("/w");
    assert_eq!(push_args(&workspace), None);
    workspace.push_branch = Some("-x".into());
    assert_eq!(
        push_args(&workspace).unwrap(),
        ["push", "--quiet", "--end-of-options", "origin", "-x"]
    );
}

fn clone_config(repo: &str) -> WorkspaceConfig {
    WorkspaceConfig {
        repo: repo.into(),
        mode: WorkspaceMode::Clone,
        branch: None,
        force: false,
    }
}

fn mount_config(repo: &str) -> WorkspaceConfig {
    WorkspaceConfig {
        mode: WorkspaceMode::Mount,
        ..clone_config(repo)
    }
}

fn begun(config: WorkspaceConfig) -> PrepareTurn {
    prepare(config, RunId::new("r1"), "/runs/r1/workspace")
}

/// Drives a preparation, answering each action, and gives the actions and
/// what it came to.
fn drive(
    turn: PrepareTurn,
    answer: &mut dyn FnMut(&Action) -> Outcome,
) -> (Vec<Action>, Result<Workspace, WorkspaceError>) {
    let mut turn = turn;
    let mut actions = Vec::new();
    for _ in 0..40 {
        match turn {
            PrepareTurn::Act(next, action) => {
                let reply = answer(&action);
                actions.push(action);
                turn = Preparation::answer(next, reply);
            }
            PrepareTurn::End(end) => return (actions, end),
        }
    }
    panic!("the preparation did not end");
}

fn git_args(actions: &[Action]) -> Vec<Vec<String>> {
    actions
        .iter()
        .filter_map(|action| match action {
            Action::Git { args, .. } => Some(args.clone()),
            _ => None,
        })
        .collect()
}

/// A host on which every git command succeeds, `local` says whether the
/// source is a directory, and the caches named are there; those in `ignored`
/// are ignored by the clone.
fn host<'a>(
    local: bool,
    caches: &'a [&'a str],
    ignored: &'a [&'a str],
) -> impl FnMut(&Action) -> Outcome + 'a {
    move |action| match action {
        Action::IsDir(_) => Outcome::Answer(local),
        Action::Canonicalize(path) => Outcome::Path(path.clone()),
        Action::Seedable { from, .. } => {
            Outcome::Answer(caches.iter().any(|cache| from.ends_with(cache)))
        }
        Action::Git { args, .. } if args[0] == "check-ignore" => {
            let hit = ignored.iter().any(|cache| args[2] == format!("{cache}/"));
            Outcome::Output(output(if hit { 0 } else { 1 }, "", ""))
        }
        Action::Git { args, .. } if args[0] == "rev-parse" => {
            Outcome::Output(output(0, ".git\n", ""))
        }
        Action::Git { .. } | Action::Copy { .. } => Outcome::Output(output(0, "", "")),
        Action::Lock { .. } => Outcome::Locked,
        Action::ReadText(_) => Outcome::Text("r1\n".into()),
    }
}

#[test]
fn a_clone_lands_on_a_run_branch_leaving_the_source_untouched() {
    let (actions, end) = drive(begun(clone_config("/src/repo")), &mut host(true, &[], &[]));
    assert_eq!(end.unwrap().root, "/runs/r1/workspace");
    let commands = git_args(&actions);
    assert_eq!(
        commands[0],
        [
            "clone",
            "--quiet",
            "--end-of-options",
            "/src/repo",
            "/runs/r1/workspace",
        ]
    );
    assert_eq!(commands[1], ["checkout", "--quiet", "-b", "hako/r1"]);
    // After the clone itself, git only ever runs in the clone.
    for action in &actions[2..] {
        if let Action::Git { dir, .. } = action {
            assert_eq!(dir.as_deref(), Some("/runs/r1/workspace"));
        }
    }
}

#[test]
fn a_local_clone_has_no_remote_at_all() {
    let (actions, end) = drive(begun(clone_config("/src/repo")), &mut host(true, &[], &[]));
    assert!(end.is_ok());
    assert!(git_args(&actions).contains(&vec![
        "remote".to_owned(),
        "remove".to_owned(),
        "origin".to_owned()
    ]));
    // A remote that cannot be removed is no workspace to hand over.
    let (_, end) = drive(begun(clone_config("/src/repo")), &mut |action| match action {
        Action::Git { args, .. } if args[0] == "remote" => {
            Outcome::Output(output(2, "", "error: No such remote: 'origin'\n"))
        }
        other => host(true, &[], &[])(other),
    });
    assert_eq!(
        end.unwrap_err().0,
        "git remote remove origin failed: error: No such remote: 'origin'"
    );
}

#[test]
fn a_url_clone_keeps_origin_for_the_agent_to_push_to() {
    let (actions, end) = drive(
        begun(clone_config("file:///srv/origin.git")),
        &mut host(false, &["target"], &["target"]),
    );
    assert_eq!(end.unwrap().push_branch, None);
    assert!(git_args(&actions).iter().all(|args| args[0] != "remote"));
    assert!(!actions.iter().any(|a| matches!(a, Action::Copy { .. })));
}

#[test]
fn seeding_from_a_branch_continues_it() {
    let config = WorkspaceConfig {
        branch: Some("feat/x".into()),
        ..clone_config("file:///srv/origin.git")
    };
    let (actions, end) = drive(begun(config), &mut host(false, &[], &[]));
    assert!(end.is_ok());
    assert_eq!(
        git_args(&actions),
        [[
            "clone",
            "--quiet",
            "--branch",
            "feat/x",
            "--end-of-options",
            "file:///srv/origin.git",
            "/runs/r1/workspace",
        ]]
    );
}

#[test]
fn dep_caches_seed_from_a_local_source_but_stay_out_of_history() {
    let (actions, end) = drive(
        begun(clone_config("/src/repo")),
        &mut host(
            true,
            &["target", "node_modules"],
            &["target", "node_modules"],
        ),
    );
    assert!(end.is_ok());
    let copies: Vec<&Action> = actions
        .iter()
        .filter(|a| matches!(a, Action::Copy { .. }))
        .collect();
    assert_eq!(
        copies,
        [
            &Action::Copy {
                from: "/src/repo/target".into(),
                to: "/runs/r1/workspace/target".into(),
            },
            &Action::Copy {
                from: "/src/repo/node_modules".into(),
                to: "/runs/r1/workspace/node_modules".into(),
            },
        ]
    );
    let probed = actions
        .iter()
        .filter(|a| matches!(a, Action::Seedable { .. }))
        .count();
    assert_eq!(probed, 4);
}

#[test]
fn an_unignored_dep_cache_is_not_seeded() {
    let (actions, end) = drive(
        begun(clone_config("/src/repo")),
        &mut host(true, &["vendor"], &[]),
    );
    assert!(end.is_ok());
    assert!(!actions.iter().any(|a| matches!(a, Action::Copy { .. })));
}

#[test]
fn a_cache_that_cannot_be_copied_fails_naming_it() {
    let (_, end) = drive(begun(clone_config("/src/repo")), &mut |action| match action {
        Action::Copy { .. } => Outcome::Output(output(1, "", "cp: no space left\n")),
        other => host(true, &[".venv"], &[".venv"])(other),
    });
    assert_eq!(
        end.unwrap_err().0,
        "seeding /src/repo/.venv failed: cp: no space left"
    );
}

#[test]
fn a_dashed_repo_is_a_repo_not_an_option() {
    let (actions, end) = drive(begun(clone_config("--upload-pack=false")), &mut |action| {
        match action {
            Action::Git { args, .. } if args[0] == "clone" => Outcome::Output(output(
                128,
                "",
                "fatal: repository '--upload-pack=false' does not exist\n",
            )),
            other => host(false, &[], &[])(other),
        }
    });
    let args = &git_args(&actions)[0];
    let fence = args.iter().position(|arg| arg == "--end-of-options");
    let repo = args.iter().position(|arg| arg == "--upload-pack=false");
    assert!(fence < repo);
    let error = end.unwrap_err().to_text();
    assert!(error.contains("--upload-pack=false"), "{error}");
}

#[test]
fn force_is_rejected_outside_mount_mode() {
    let config = WorkspaceConfig {
        force: true,
        ..clone_config("/src/repo")
    };
    let (actions, end) = drive(begun(config), &mut host(true, &[], &[]));
    assert!(actions.is_empty());
    let error = end.unwrap_err().to_text();
    assert!(error.contains("mount"), "{error}");
}

#[test]
fn a_seed_branch_is_rejected_outside_clone_mode() {
    let config = WorkspaceConfig {
        branch: Some("feat/x".into()),
        ..mount_config("/src/repo")
    };
    let (actions, end) = drive(begun(config), &mut host(true, &[], &[]));
    assert!(actions.is_empty());
    let error = end.unwrap_err().to_text();
    assert!(error.contains("clone"), "{error}");
}

#[test]
fn a_mount_works_in_place_and_holds_the_path_for_one_run() {
    let (actions, end) = drive(begun(mount_config("/src/repo")), &mut host(true, &[], &[]));
    let workspace = end.unwrap();
    assert_eq!(workspace.mount().host, "/src/repo");
    assert_eq!(
        workspace.lock.as_deref(),
        Some("/src/repo/.git/hako-mount.lock")
    );
    assert!(actions.contains(&Action::Lock {
        path: "/src/repo/.git/hako-mount.lock".into(),
        holder: "r1".into(),
    }));

    let second = prepare(mount_config("/src/repo"), RunId::new("r2"), "/unused");
    let (_, end) = drive(second, &mut |action| match action {
        Action::Lock { .. } => Outcome::Held,
        other => host(true, &[], &[])(other),
    });
    let error = end.unwrap_err().to_text();
    assert!(error.contains("run r1"), "{error}");
    assert!(error.contains(MOUNT_LOCK_FILE), "{error}");

    let third = prepare(mount_config("/src/repo"), RunId::new("r2"), "/unused");
    let (_, end) = drive(third, &mut |action| match action {
        Action::Lock { .. } => Outcome::Held,
        Action::ReadText(_) => Outcome::Failed("gone".into()),
        other => host(true, &[], &[])(other),
    });
    let error = end.unwrap_err().to_text();
    assert!(error.contains("already mounted by another run"), "{error}");
}

#[test]
fn a_dirty_mount_is_refused_unless_forced() {
    let mut dirty = |action: &Action| match action {
        Action::Git { args, .. } if args[0] == "status" => {
            Outcome::Output(output(0, " M README.md\n", ""))
        }
        other => host(true, &[], &[])(other),
    };
    let (_, end) = drive(begun(mount_config("/src/repo")), &mut dirty);
    let error = end.unwrap_err().to_text();
    assert!(error.contains("uncommitted"), "{error}");
    assert!(error.contains("force"), "{error}");

    let forced = WorkspaceConfig {
        force: true,
        ..mount_config("/src/repo")
    };
    let (_, end) = drive(begun(forced), &mut dirty);
    assert!(end.is_ok());
}

#[test]
fn mounting_something_other_than_a_repository_fails() {
    let (_, end) = drive(
        begun(mount_config("/no/such/checkout")),
        &mut host(false, &[], &[]),
    );
    let error = end.unwrap_err().to_text();
    assert!(error.contains("/no/such/checkout"), "{error}");

    let (_, end) = drive(begun(mount_config("/plain")), &mut |action| match action {
        Action::Git { .. } => Outcome::Output(output(128, "", "fatal: not a git repository\n")),
        other => host(true, &[], &[])(other),
    });
    let error = end.unwrap_err().to_text();
    assert!(error.contains("git"), "{error}");
}

#[test]
fn what_cannot_be_done_is_told_by_what_it_was() {
    for (config, broken, expected) in [
        (clone_config("r"), "git", "cannot run git: boom"),
        (
            clone_config("r"),
            "canonicalize",
            "cannot resolve /runs/r1/workspace: boom",
        ),
        (clone_config("r"), "copy", "cannot run cp: boom"),
        (mount_config("r"), "canonicalize", "cannot resolve r: boom"),
        (
            mount_config("r"),
            "lock",
            "cannot lock r/.git/hako-mount.lock: boom",
        ),
    ] {
        let (_, end) = drive(begun(config), &mut |action| {
            let kind = match action {
                Action::Git { .. } => "git",
                Action::Canonicalize(_) => "canonicalize",
                Action::Copy { .. } => "copy",
                Action::Lock { .. } => "lock",
                _ => "",
            };
            if kind == broken {
                Outcome::Failed("boom".into())
            } else {
                host(true, &["target"], &["target"])(action)
            }
        });
        assert_eq!(end.unwrap_err().0, expected);
    }
}
