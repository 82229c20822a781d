//! What preparing a workspace does, read off what went to and fro alone:
//! wherever a preparation stands, its history calls for what it asks for next.

use crate::flow::{WorkspaceConfig, WorkspaceMode};
use crate::prepare::{self, Action, Outcome, Preparation, PrepareAt, PrepareTurn};
use crate::text;
use crate::utf8;
use crate::workspace::{Workspace, WorkspaceError};
use vstd::prelude::*;

verus! {

/// What a preparation's history shows.
#[verifier::ext_equal]
pub ghost struct Log {
    /// The action that was asked for last, and what came of it.
    pub asked: Option<Action>,
    pub heard: Option<Outcome>,
    /// Whether the path that was asked about first is a directory.
    pub local: bool,
    /// The workspace's root.
    pub root: Seq<char>,
    /// Whether the run's branch was created, and the remote removed.
    pub branched: bool,
    pub unlinked: bool,
    /// How many caches were asked about.
    pub probed: nat,
    /// The lock's path.
    pub lock: Seq<char>,
}

/// A history in which nothing has happened.
pub open spec fn nothing() -> Log {
    Log {
        asked: None,
        heard: None,
        local: false,
        root: Seq::empty(),
        branched: false,
        unlinked: false,
        probed: 0,
        lock: Seq::empty(),
    }
}

/// Whether an action runs the git command of this name.
pub open spec fn runs(action: Option<Action>, name: Seq<char>) -> bool {
    action matches Some(Action::Git { dir, args }) && args@.len() > 0 && args@[0]@ == name
}

/// Whether a command ended with code 0.
pub open spec fn went_well(heard: Option<Outcome>) -> bool {
    heard matches Some(Outcome::Output(output)) && output.code == Some(0i32)
}

/// What a command printed.
pub open spec fn printed(heard: Option<Outcome>) -> Seq<char> {
    match heard {
        Some(Outcome::Output(output)) => text::trimmed(utf8::text_of(output.stdout@)),
        _ => Seq::empty(),
    }
}

/// A history with one more action asked for.
pub open spec fn see(l: Log, action: Action) -> Log {
    Log {
        asked: Some(action),
        heard: None,
        probed: if action is Seedable {
            l.probed + 1
        } else {
            l.probed
        },
        ..l
    }
}

/// A history with the last action answered.
pub open spec fn hear(l: Log, reply: Outcome) -> Log {
    let told = Log { heard: Some(reply), ..l };
    match (l.asked, reply) {
        (Some(Action::IsDir(_)), Outcome::Answer(yes)) => Log { local: yes, ..told },
        (Some(Action::Canonicalize(_)), Outcome::Path(path)) => Log { root: path@, ..told },
        _ => Log {
            branched: l.branched || (runs(l.asked, "checkout"@) && went_well(Some(reply))),
            unlinked: l.unlinked || (runs(l.asked, "remote"@) && went_well(Some(reply))),
            lock: if runs(l.asked, "rev-parse"@) && went_well(Some(reply)) {
                prepare::seen_from(
                    prepare::seen_from(l.root, printed(Some(reply))),
                    "hako-mount.lock"@,
                )
            } else {
                l.lock
            },
            ..told
        },
    }
}

/// Whether an action runs git in the workspace with these arguments.
pub open spec fn gits(action: Action, root: Seq<char>, command: Seq<Seq<char>>) -> bool {
    action matches Action::Git { dir, args } && (dir matches Some(dir) && dir@ == root)
        && text::texts(args@) == command
}

/// The caches that are seeded.
pub open spec fn caches() -> Seq<Seq<char>> {
    seq!["target"@, "node_modules"@, ".venv"@, "vendor"@]
}

/// Whether a clone of a local source has dealt with a cache and goes on.
pub open spec fn next_cache(l: Log) -> bool {
    ||| runs(l.asked, "remote"@) && went_well(l.heard)
    ||| l.asked matches Some(Action::Seedable { .. }) && l.heard == Some(Outcome::Answer(false))
    ||| runs(l.asked, "check-ignore"@) && (l.heard matches Some(Outcome::Output(output))
        && output.code == Some(1i32))
    ||| l.asked matches Some(Action::Copy { .. }) && went_well(l.heard)
}

/// Whether a clone stands on the branch that it is to have.
pub open spec fn on_branch(config: WorkspaceConfig, l: Log) -> bool {
    if config.branch is Some {
        l.asked matches Some(Action::Canonicalize(_)) && l.heard matches Some(Outcome::Path(_))
    } else {
        runs(l.asked, "checkout"@) && went_well(l.heard)
    }
}

/// Whether a history calls for the action that a preparation asks for next.
pub open spec fn asks_rightly(
    config: WorkspaceConfig,
    run_id: Seq<char>,
    dest: Seq<char>,
    l: Log,
    action: Action,
) -> bool {
    let repo = config.repo@;
    let mount = config.mode == WorkspaceMode::Mount;
    match action {
        Action::IsDir(path) => l.asked is None && path@ == repo,
        Action::Canonicalize(path) => if mount {
            path@ == repo && (l.asked matches Some(Action::IsDir(_))) && l.heard == Some(
                Outcome::Answer(true),
            )
        } else {
            path@ == dest && runs(l.asked, "clone"@) && went_well(l.heard)
        },
        Action::Seedable { from, to } => {
            &&& !mount
            &&& l.local
            &&& l.unlinked
            &&& next_cache(l)
            &&& l.probed < 4
            &&& from@ == prepare::seen_from(repo, caches()[l.probed as int])
            &&& to@ == prepare::seen_from(l.root, caches()[l.probed as int])
        },
        Action::Copy { from, to } => {
            &&& !mount
            &&& runs(l.asked, "check-ignore"@)
            &&& went_well(l.heard)
            &&& 0 < l.probed <= 4
            &&& from@ == prepare::seen_from(repo, caches()[l.probed - 1])
            &&& to@ == prepare::seen_from(l.root, caches()[l.probed - 1])
        },
        Action::Lock { path, holder } => {
            &&& mount
            &&& runs(l.asked, "status"@)
            &&& went_well(l.heard)
            &&& printed(l.heard).len() == 0 || config.force
            &&& path@ == l.lock
            &&& holder@ == run_id
        },
        Action::ReadText(path) => {
            &&& mount
            &&& l.asked matches Some(Action::Lock { .. })
            &&& l.heard == Some(Outcome::Held)
            &&& path@ == l.lock
        },
        Action::Git { dir, args } => if mount {
            ||| gits(action, l.root, seq!["rev-parse"@, "--git-dir"@]) && (l.asked matches Some(
                Action::Canonicalize(_),
            ))
            ||| gits(action, l.root, seq!["status"@, "--porcelain"@]) && runs(
                l.asked,
                "rev-parse"@,
            ) && went_well(l.heard)
        } else {
            ||| {
                &&& l.asked matches Some(Action::IsDir(_))
                &&& dir is None
                &&& text::texts(args@) == match config.branch {
                    Some(branch) => seq![
                        "clone"@,
                        "--quiet"@,
                        "--branch"@,
                        branch@,
                        "--end-of-options"@,
                        repo,
                        dest,
                    ],
                    None => seq!["clone"@, "--quiet"@, "--end-of-options"@, repo, dest],
                }
            }
            ||| {
                &&& config.branch is None
                &&& l.asked matches Some(Action::Canonicalize(_))
                &&& gits(action, l.root, seq!["checkout"@, "--quiet"@, "-b"@, "hako/"@ + run_id])
            }
            ||| {
                &&& l.local
                &&& on_branch(config, l)
                &&& gits(action, l.root, seq!["remote"@, "remove"@, "origin"@])
            }
            ||| {
                &&& l.asked matches Some(Action::Seedable { .. })
                &&& l.heard == Some(Outcome::Answer(true))
                &&& 0 < l.probed <= 4
                &&& gits(
                    action,
                    l.root,
                    seq!["check-ignore"@, "-q"@, caches()[l.probed - 1] + "/"@],
                )
            }
        },
    }
}

/// Whether a preparation's end is what its history shows. A workspace is
/// handed over at the root that was resolved: a clone on its branch, and one
/// of a local source without its remote and with every cache dealt with; a
/// mount once its lock was taken. A refusal has a cause: an action that
/// failed, a mount that is no directory, that is dirty or that is held, or a
/// reply to something else than was asked.
pub open spec fn ends_rightly(
    config: WorkspaceConfig,
    l: Log,
    end: Result<Workspace, WorkspaceError>,
) -> bool {
    match end {
        Ok(ws) => {
            &&& ws.root@ == l.root
            &&& ws.push_branch is None
            &&& if config.mode == WorkspaceMode::Mount {
                &&& l.asked matches Some(Action::Lock { .. })
                &&& l.heard == Some(Outcome::Locked)
                &&& ws.lock matches Some(lock)
                &&& lock@ == l.lock
            } else {
                &&& ws.lock is None
                &&& if l.local {
                    l.unlinked && l.probed == 4 && next_cache(l)
                } else {
                    on_branch(config, l)
                }
            }
        },
        Err(_) => match (l.asked, l.heard) {
            (_, Some(Outcome::Failed(_))) => true,
            (Some(Action::IsDir(_)), Some(Outcome::Answer(yes))) => config.mode
                == WorkspaceMode::Mount && !yes,
            (Some(Action::Git { .. }), Some(Outcome::Output(output))) => output.code != Some(0i32)
                || (runs(l.asked, "status"@) && printed(l.heard).len() > 0 && !config.force),
            (Some(Action::Copy { .. }), Some(Outcome::Output(output))) => output.code != Some(0i32),
            (Some(Action::ReadText(_)), _) => true,
            (Some(Action::Canonicalize(_)), Some(Outcome::Path(_))) => false,
            (Some(Action::Seedable { .. }), Some(Outcome::Answer(_))) => false,
            (Some(Action::Lock { .. }), Some(heard)) => heard != Outcome::Locked && heard
                != Outcome::Held,
            _ => true,
        },
    }
}

/// What the history of a preparation shows that asked for `actions` and got
/// `replies`, one for each.
pub open spec fn sight(actions: Seq<Action>, replies: Seq<Outcome>) -> Log
    decreases replies.len(),
{
    if replies.len() == 0 {
        nothing()
    } else {
        hear(see(sight(actions.drop_last(), replies.drop_last()), actions.last()), replies.last())
    }
}

/// Whether a preparation that began at `start` stands at `turn` once it has
/// asked for `actions` and got `replies`, one for each.
pub open spec fn comes_to(
    start: PrepareTurn,
    actions: Seq<Action>,
    replies: Seq<Outcome>,
    turn: PrepareTurn,
) -> bool
    decreases replies.len(),
{
    &&& actions.len() == replies.len()
    &&& if replies.len() == 0 {
        turn == start
    } else {
        exists|before: Preparation| #[trigger]
            before.answered(replies.last(), turn) && comes_to(
                start,
                actions.drop_last(),
                replies.drop_last(),
                PrepareTurn::Act(before, actions.last()),
            )
    }
}

/// Whether a preparation stands where its history shows it.
spec fn stands(
    p: Preparation,
    config: WorkspaceConfig,
    run_id: Seq<char>,
    dest: Seq<char>,
    l: Log,
) -> bool {
    let mount = config.mode == WorkspaceMode::Mount;
    &&& p.config == config
    &&& p.run_id@ == run_id
    &&& p.dest@ == dest
    &&& l.asked is Some
    &&& match p.at {
        PrepareAt::AskingSource => !mount && l.asked->0 is IsDir && l.probed == 0,
        PrepareAt::Cloning { local } => !mount && runs(l.asked, "clone"@) && local == l.local
            && l.probed == 0,
        PrepareAt::ResolvingClone { local } => !mount && l.asked->0 is Canonicalize && local
            == l.local && l.probed == 0,
        PrepareAt::Branching { local } => !mount && config.branch is None && runs(
            l.asked,
            "checkout"@,
        ) && local == l.local && p.root@ == l.root && l.probed == 0,
        PrepareAt::Unlinking => !mount && runs(l.asked, "remote"@) && l.local && p.root@ == l.root
            && l.probed == 0,
        PrepareAt::Probing { cache } => !mount && l.asked->0 is Seedable && l.local && l.unlinked
            && p.root@ == l.root && l.probed == cache + 1 && cache < 4,
        PrepareAt::Ignoring { cache } => !mount && runs(l.asked, "check-ignore"@) && l.local
            && l.unlinked && p.root@ == l.root && l.probed == cache + 1 && cache < 4,
        PrepareAt::Copying { cache } => !mount && l.asked->0 is Copy && l.local && l.unlinked
            && p.root@ == l.root && l.probed == cache + 1 && cache < 4,
        PrepareAt::AskingMount => mount && l.asked->0 is IsDir,
        PrepareAt::ResolvingMount => mount && l.asked->0 is Canonicalize,
        PrepareAt::LocatingGit => mount && runs(l.asked, "rev-parse"@) && p.root@ == l.root,
        PrepareAt::Inspecting => mount && runs(l.asked, "status"@) && p.root@ == l.root && p.lock@
            == l.lock,
        PrepareAt::Locking => mount && l.asked->0 is Lock && p.root@ == l.root && p.lock@ == l.lock,
        PrepareAt::NamingHolder => mount && l.asked->0 is ReadText,
    }
}

/// The names of git's commands differ, and those of the caches are the four.
proof fn lemma_names()
    ensures
        "clone"@.len() == 5,
        "checkout"@.len() == 8,
        "remote"@.len() == 6,
        "remote"@[0] == 'r',
        "check-ignore"@.len() == 12,
        "rev-parse"@.len() == 9,
        "status"@.len() == 6,
        "status"@[0] == 's',
        forall|i: int| 0 <= i < 4 ==> #[trigger] caches()[i] == prepare::dep_cache(i),
        prepare::MOUNT_LOCK_FILE@ == "hako-mount.lock"@,
{
    reveal_strlit("clone");
    reveal_strlit("checkout");
    reveal_strlit("remote");
    reveal_strlit("check-ignore");
    reveal_strlit("rev-parse");
    reveal_strlit("status");
}

/// Git's arguments begin with its command.
proof fn lemma_command(action: Action, command: Seq<Seq<char>>)
    requires
        command.len() > 0,
        action matches Action::Git { dir, args } && text::texts(args@) == command,
    ensures
        runs(Some(action), command[0]),
{
    if let Action::Git { dir, args } = action {
        assert(text::texts(args@).len() == args@.len());
        assert(text::texts(args@)[0] == args@[0]@);
    }
}

/// The git command that a preparation stands at.
proof fn lemma_asks(p: Preparation, action: Action)
    requires
        p.asks(action),
        p.runs_git(),
    ensures
        p.at is Cloning ==> runs(Some(action), "clone"@),
        p.at is Branching ==> runs(Some(action), "checkout"@),
        p.at is Unlinking ==> runs(Some(action), "remote"@),
        p.at is Ignoring ==> runs(Some(action), "check-ignore"@),
        p.at is LocatingGit ==> runs(Some(action), "rev-parse"@),
        p.at is Inspecting ==> runs(Some(action), "status"@),
        p.at is Cloning ==> p.clone_command() == match p.config.branch {
            Some(branch) => seq![
                "clone"@,
                "--quiet"@,
                "--branch"@,
                branch@,
                "--end-of-options"@,
                p.config.repo@,
                p.dest@,
            ],
            None => seq!["clone"@, "--quiet"@, "--end-of-options"@, p.config.repo@, p.dest@],
        },
{
    if p.at is Cloning {
        match p.config.branch {
            Some(branch) => {
                assert(p.clone_command() =~= seq![
                    "clone"@,
                    "--quiet"@,
                    "--branch"@,
                    branch@,
                    "--end-of-options"@,
                    p.config.repo@,
                    p.dest@,
                ]);
            },
            None => {
                assert(p.clone_command() =~= seq![
                    "clone"@,
                    "--quiet"@,
                    "--end-of-options"@,
                    p.config.repo@,
                    p.dest@,
                ]);
            },
        }
    }
    lemma_command(action, p.command());
}

/// One step of a preparation, seen from its history.
proof fn lemma_step(
    p: Preparation,
    config: WorkspaceConfig,
    run_id: Seq<char>,
    dest: Seq<char>,
    l: Log,
    reply: Outcome,
    turn: PrepareTurn,
)
    requires
        stands(p, config, run_id, dest, l),
        p.answered(reply, turn),
    ensures
        match turn {
            PrepareTurn::Act(next, action) => {
                &&& asks_rightly(config, run_id, dest, hear(l, reply), action)
                &&& stands(next, config, run_id, dest, see(hear(l, reply), action))
            },
            PrepareTurn::End(end) => ends_rightly(config, hear(l, reply), end),
        },
{
    lemma_names();
    if let PrepareTurn::Act(next, action) = turn {
        if next.runs_git() {
            lemma_asks(next, action);
        }
    }
}

/// What preparing a workspace does, its history calls for. Whatever the host
/// answers, the action that a preparation asks for next is one that the
/// history of actions and replies calls for, and its end is one that the
/// history shows.
pub proof fn a_preparation_goes_by_its_history(
    config: WorkspaceConfig,
    run_id: Seq<char>,
    dest: Seq<char>,
    begun: Preparation,
    first: Action,
    actions: Seq<Action>,
    replies: Seq<Outcome>,
    turn: PrepareTurn,
)
    requires
        prepare::begins(config, run_id, dest, PrepareTurn::Act(begun, first)),
        comes_to(PrepareTurn::Act(begun, first), actions, replies, turn),
    ensures
        match turn {
            PrepareTurn::Act(_, action) => asks_rightly(
                config,
                run_id,
                dest,
                sight(actions, replies),
                action,
            ),
            PrepareTurn::End(end) => ends_rightly(config, sight(actions, replies), end),
        },
{
    lemma_course(config, run_id, dest, begun, first, actions, replies, turn);
}

proof fn lemma_course(
    config: WorkspaceConfig,
    run_id: Seq<char>,
    dest: Seq<char>,
    begun: Preparation,
    first: Action,
    actions: Seq<Action>,
    replies: Seq<Outcome>,
    turn: PrepareTurn,
)
    requires
        prepare::begins(config, run_id, dest, PrepareTurn::Act(begun, first)),
        comes_to(PrepareTurn::Act(begun, first), actions, replies, turn),
    ensures
        match turn {
            PrepareTurn::Act(next, action) => {
                &&& asks_rightly(config, run_id, dest, sight(actions, replies), action)
                &&& stands(next, config, run_id, dest, see(sight(actions, replies), action))
            },
            PrepareTurn::End(end) => ends_rightly(config, sight(actions, replies), end),
        },
    decreases replies.len(),
{
    let start = PrepareTurn::Act(begun, first);
    if replies.len() > 0 {
        let before = choose|before: Preparation| #[trigger]
            before.answered(replies.last(), turn) && comes_to(
                start,
                actions.drop_last(),
                replies.drop_last(),
                PrepareTurn::Act(before, actions.last()),
            );
        lemma_course(
            config,
            run_id,
            dest,
            begun,
            first,
            actions.drop_last(),
            replies.drop_last(),
            PrepareTurn::Act(before, actions.last()),
        );
        let l = see(sight(actions.drop_last(), replies.drop_last()), actions.last());
        lemma_step(before, config, run_id, dest, l, replies.last(), turn);
    }
}

/// A flow whose options belong to the other mode is refused before anything
/// is asked for, and no other is.
pub proof fn only_a_muddled_flow_is_refused_at_once(
    config: WorkspaceConfig,
    run_id: Seq<char>,
    dest: Seq<char>,
    turn: PrepareTurn,
)
    requires
        prepare::begins(config, run_id, dest, turn),
    ensures
        turn is End <==> if config.mode == WorkspaceMode::Mount {
            config.branch is Some
        } else {
            config.force
        },
        turn matches PrepareTurn::End(end) ==> end is Err,
{
}

} // verus!
