//! Workspace preparation: how a run's workspace comes to exist, before any
//! kernel touches it.
//!
//! Clone, the default: the source, a git URL or a local path, is cloned into
//! a run-owned directory on a run branch, so the user's checkout and
//! uncommitted work are unreachable by construction. A clone of a remote URL
//! keeps `origin`; a clone of a local path has its remote stripped.
//!
//! Mount, the opt-in: the run works directly in an existing checkout,
//! refusing one with changes unless forced, and locking the path to one
//! active run.
//!
//! The preparation says what is to be done, one action at a time, and takes
//! what came of it.

use crate::flow::{WorkspaceConfig, WorkspaceMode};
use crate::run::RunId;
use crate::text;
use crate::utf8;
use crate::workspace::{self, CommandOutput, Workspace, WorkspaceError};
use vstd::prelude::*;

verus! {

/// Every run branch a preparation creates begins with it.
pub const RUN_BRANCH_PREFIX: &'static str = "hako/";

/// How many dependency caches clone mode seeds.
pub const DEP_CACHES: usize = 4;

/// The lock pinning a mounted checkout to one active run. It lives in the
/// checkout's git directory: with the repository, outside the working tree.
pub const MOUNT_LOCK_FILE: &'static str = "hako-mount.lock";

/// The dependency caches clone mode seeds from a local source checkout, so
/// that parallel clones do not each pay a clean rebuild.
pub open spec fn dep_cache(i: int) -> Seq<char> {
    if i == 0 {
        "target"@
    } else if i == 1 {
        "node_modules"@
    } else if i == 2 {
        ".venv"@
    } else {
        "vendor"@
    }
}

fn dep_cache_dir(i: usize) -> (s: &'static str)
    ensures
        s@ == dep_cache(i as int),
{
    if i == 0 {
        "target"
    } else if i == 1 {
        "node_modules"
    } else if i == 2 {
        ".venv"
    } else {
        "vendor"
    }
}

/// A path seen from a directory: itself where it begins at the root.
pub open spec fn seen_from(dir: Seq<char>, path: Seq<char>) -> Seq<char> {
    if path.len() > 0 && path[0] == '/' {
        path
    } else if dir.len() == 0 || dir.last() == '/' {
        dir + path
    } else {
        dir + "/"@ + path
    }
}

/// [`seen_from`], computed.
pub fn resolve_from(dir: &str, path: &str) -> (s: String)
    ensures
        s@ == seen_from(dir@, path@),
{
    let p = text::chars_of(path);
    if p.len() > 0 && p[0] == '/' {
        return path.to_owned();
    }
    let d = text::chars_of(dir);
    let mut s = dir.to_owned();
    if d.len() > 0 && d[d.len() - 1] != '/' {
        s.append("/");
    }
    s.append(path);
    s
}

/// Where a preparation stands: at the action whose reply it awaits.
#[derive(Debug, Clone, Copy, PartialEq, Eq, Structural)]
pub enum PrepareAt {
    /// Asking whether the source is a local directory.
    AskingSource,
    Cloning { local: bool },
    /// Asking for the clone's canonical path.
    ResolvingClone { local: bool },
    /// Creating the run branch.
    Branching { local: bool },
    /// Removing the remote of a local source.
    Unlinking,
    /// Asking whether a cache is there and not yet in the clone.
    Probing { cache: usize },
    /// Asking whether the clone ignores it.
    Ignoring { cache: usize },
    Copying { cache: usize },
    /// Asking whether the path to mount is a directory.
    AskingMount,
    /// Asking for its canonical path.
    ResolvingMount,
    /// Asking for its git directory.
    LocatingGit,
    /// Asking for uncommitted changes.
    Inspecting,
    Locking,
    /// Asking who holds the lock.
    NamingHolder,
}

/// What a preparation asks to be done.
#[derive(Debug, Clone, PartialEq, Eq)]
pub enum Action {
    /// Say whether a path is a directory.
    IsDir(String),
    /// Run git in a directory, or in the process's own where there is none.
    Git { dir: Option<String>, args: Vec<String> },
    /// Say what a path is in full.
    Canonicalize(String),
    /// Say whether `from` is a directory and `to` is nothing yet.
    Seedable { from: String, to: String },
    /// Copy a directory whole, sharing its blocks where that is possible.
    Copy { from: String, to: String },
    /// Create a file that is not there and write who holds it; leave nothing
    /// behind where the writing fails.
    Lock { path: String, holder: String },
    ReadText(String),
}

/// What came of an action.
#[derive(Debug, Clone, PartialEq, Eq)]
pub enum Outcome {
    Answer(bool),
    Output(CommandOutput),
    Path(String),
    Locked,
    /// The lock was there already.
    Held,
    Text(String),
    Failed(String),
}

/// Where a preparation goes: to the next action, or to its end.
pub enum PrepareTurn {
    Act(Preparation, Action),
    End(Result<Workspace, WorkspaceError>),
}

/// A workspace being prepared as a flow asks.
pub struct Preparation {
    pub config: WorkspaceConfig,
    pub run_id: RunId,
    /// Where a clone lands: the run's own directory.
    pub dest: String,
    pub at: PrepareAt,
    /// The workspace's canonical root, once it is known.
    pub root: String,
    /// The mount lock's path, once it is known.
    pub lock: String,
}

/// Whether a directory is what a text names.
pub open spec fn in_dir(dir: Option<String>, path: Seq<char>) -> bool {
    dir matches Some(d) && d@ == path
}

/// Whether a preparation ends with an error that says `words`.
pub open spec fn fails(to: PrepareTurn, words: Seq<char>) -> bool {
    to matches PrepareTurn::End(Err(error)) && error.0@ == words
}

/// Whether a preparation ends with a workspace at `root`.
pub open spec fn yields(to: PrepareTurn, root: Seq<char>, lock: Option<Seq<char>>) -> bool {
    to matches PrepareTurn::End(Ok(ws)) && ws.root@ == root && ws.push_branch is None && match (
        lock,
        ws.lock,
    ) {
        (Some(path), Some(file)) => file@ == path,
        (None, None) => true,
        _ => false,
    }
}

/// Who a held lock says holds it.
pub open spec fn holder(held: Outcome) -> Seq<char> {
    match held {
        Outcome::Text(id) => if text::trimmed(id@).len() > 0 {
            "run "@ + text::trimmed(id@)
        } else {
            "another run"@
        },
        _ => "another run"@,
    }
}

/// The words for a preparation whose action was answered by the reply to
/// another.
pub open spec fn out_of_step() -> Seq<char> {
    "a reply arrived out of step"@
}

impl Preparation {
    /// The git command that clones. The repository is flow-authored; after
    /// `--end-of-options` it can only ever be a path or URL, dashes and all.
    pub open spec fn clone_command(&self) -> Seq<Seq<char>> {
        let fenced = seq!["--end-of-options"@, self.config.repo@, self.dest@];
        match self.config.branch {
            Some(branch) => seq!["clone"@, "--quiet"@, "--branch"@, branch@] + fenced,
            None => seq!["clone"@, "--quiet"@] + fenced,
        }
    }

    /// The git command whose answer is awaited.
    pub open spec fn command(&self) -> Seq<Seq<char>> {
        match self.at {
            PrepareAt::Cloning { .. } => self.clone_command(),
            PrepareAt::Branching { .. } => seq![
                "checkout"@,
                "--quiet"@,
                "-b"@,
                RUN_BRANCH_PREFIX@ + self.run_id@,
            ],
            PrepareAt::Unlinking => seq!["remote"@, "remove"@, "origin"@],
            PrepareAt::Ignoring { cache } => seq![
                "check-ignore"@,
                "-q"@,
                dep_cache(cache as int) + "/"@,
            ],
            PrepareAt::LocatingGit => seq!["rev-parse"@, "--git-dir"@],
            _ => seq!["status"@, "--porcelain"@],
        }
    }

    /// Whether an action is the one the preparation stands at.
    pub open spec fn asks(&self, action: Action) -> bool {
        match self.at {
            PrepareAt::AskingSource => action matches Action::IsDir(path) && path@
                == self.config.repo@,
            PrepareAt::AskingMount => action matches Action::IsDir(path) && path@
                == self.config.repo@,
            PrepareAt::Cloning { .. } => action matches Action::Git { dir, args } && dir is None
                && text::texts(args@) == self.command(),
            PrepareAt::ResolvingClone { .. } => action matches Action::Canonicalize(path) && path@
                == self.dest@,
            PrepareAt::ResolvingMount => action matches Action::Canonicalize(path) && path@
                == self.config.repo@,
            PrepareAt::Probing { cache } => action matches Action::Seedable { from, to } && from@
                == seen_from(self.config.repo@, dep_cache(cache as int)) && to@ == seen_from(
                self.root@,
                dep_cache(cache as int),
            ),
            PrepareAt::Copying { cache } => action matches Action::Copy { from, to } && from@
                == seen_from(self.config.repo@, dep_cache(cache as int)) && to@ == seen_from(
                self.root@,
                dep_cache(cache as int),
            ),
            PrepareAt::Locking => action matches Action::Lock { path, holder } && path@
                == self.lock@ && holder@ == self.run_id@,
            PrepareAt::NamingHolder => action matches Action::ReadText(path) && path@ == self.lock@,
            _ => action matches Action::Git { dir, args } && in_dir(dir, self.root@)
                && text::texts(args@) == self.command(),
        }
    }

    /// Whether `to` is the preparation at its next action.
    pub open spec fn proceeds(
        &self,
        at: PrepareAt,
        root: Seq<char>,
        lock: Seq<char>,
        to: PrepareTurn,
    ) -> bool {
        &&& to matches PrepareTurn::Act(next, action)
        &&& next.config == self.config
        &&& next.run_id == self.run_id
        &&& next.dest == self.dest
        &&& next.at == at
        &&& next.root@ == root
        &&& next.lock@ == lock
        &&& next.asks(action)
    }

    /// Where a clone goes once it is on its branch: a local source is
    /// unlinked before anything else; a remote one is done.
    pub open spec fn settles(&self, local: bool, root: Seq<char>, to: PrepareTurn) -> bool {
        if local {
            self.proceeds(PrepareAt::Unlinking, root, self.lock@, to)
        } else {
            yields(to, root, None)
        }
    }

    /// Where a clone goes once a cache is dealt with.
    pub open spec fn seeds(&self, cache: int, to: PrepareTurn) -> bool {
        if cache < DEP_CACHES {
            self.proceeds(
                PrepareAt::Probing { cache: cache as usize },
                self.root@,
                self.lock@,
                to,
            )
        } else {
            yields(to, self.root@, None)
        }
    }

    /// Where the answer of the git command at hand takes the preparation.
    pub open spec fn git_answered(&self, output: CommandOutput, to: PrepareTurn) -> bool {
        let stdout = text::trimmed(utf8::text_of(output.stdout@));
        match self.at {
            PrepareAt::Ignoring { cache } => if output.code == Some(0i32) {
                self.proceeds(PrepareAt::Copying { cache }, self.root@, self.lock@, to)
            } else if output.code == Some(1i32) {
                self.seeds(cache + 1, to)
            } else {
                fails(to, workspace::git_failure_text("check-ignore"@, output.stderr@))
            },
            _ => if output.code != Some(0i32) {
                fails(
                    to,
                    workspace::git_failure_text(
                        text::joined(self.command(), " "@),
                        output.stderr@,
                    ),
                )
            } else {
                match self.at {
                    PrepareAt::Cloning { local } => self.proceeds(
                        PrepareAt::ResolvingClone { local },
                        self.root@,
                        self.lock@,
                        to,
                    ),
                    PrepareAt::Branching { local } => self.settles(local, self.root@, to),
                    PrepareAt::Unlinking => self.seeds(0, to),
                    PrepareAt::LocatingGit => self.proceeds(
                        PrepareAt::Inspecting,
                        self.root@,
                        seen_from(seen_from(self.root@, stdout), MOUNT_LOCK_FILE@),
                        to,
                    ),
                    _ => if stdout.len() > 0 && !self.config.force {
                        fails(
                            to,
                            self.root@
                                + " has uncommitted changes the run would sweep into its checkpoints; commit or stash them, or set workspace.force = true to accept that"@,
                        )
                    } else {
                        self.proceeds(PrepareAt::Locking, self.root@, self.lock@, to)
                    },
                }
            },
        }
    }

    /// Where a failure to act takes the preparation: to its end, except that
    /// a lock nobody can read still names a holder.
    pub open spec fn gave_up(&self, error: Seq<char>, to: PrepareTurn) -> bool {
        match self.at {
            PrepareAt::ResolvingClone { .. } => fails(
                to,
                "cannot resolve "@ + self.dest@ + ": "@ + error,
            ),
            PrepareAt::ResolvingMount => fails(
                to,
                "cannot resolve "@ + self.config.repo@ + ": "@ + error,
            ),
            PrepareAt::Copying { .. } => fails(to, "cannot run cp: "@ + error),
            PrepareAt::Locking => fails(to, "cannot lock "@ + self.lock@ + ": "@ + error),
            PrepareAt::AskingSource => fails(to, out_of_step()),
            PrepareAt::AskingMount => fails(to, out_of_step()),
            PrepareAt::Probing { .. } => fails(to, out_of_step()),
            _ => fails(to, "cannot run git: "@ + error),
        }
    }

    /// Whether the preparation stands at a git command.
    pub open spec fn runs_git(&self) -> bool {
        self.at is Cloning || self.at is Branching || self.at is Unlinking || self.at is Ignoring
            || self.at is LocatingGit || self.at is Inspecting
    }

    /// Where a reply takes the preparation.
    pub open spec fn answered(&self, reply: Outcome, to: PrepareTurn) -> bool {
        if self.at is NamingHolder {
            fails(
                to,
                self.root@ + " is already mounted by "@ + holder(reply)
                    + "; wait for it, or remove "@ + self.lock@ + " if that run is gone"@,
            )
        } else {
            match reply {
                Outcome::Failed(error) => self.gave_up(error@, to),
                Outcome::Answer(yes) => match self.at {
                    PrepareAt::AskingSource => self.proceeds(
                        PrepareAt::Cloning { local: yes },
                        self.root@,
                        self.lock@,
                        to,
                    ),
                    PrepareAt::AskingMount => if yes {
                        self.proceeds(PrepareAt::ResolvingMount, self.root@, self.lock@, to)
                    } else {
                        fails(to, "mount path "@ + self.config.repo@ + " is not a directory"@)
                    },
                    PrepareAt::Probing { cache } => if yes {
                        self.proceeds(PrepareAt::Ignoring { cache }, self.root@, self.lock@, to)
                    } else {
                        self.seeds(cache + 1, to)
                    },
                    _ => fails(to, out_of_step()),
                },
                Outcome::Path(path) => match self.at {
                    PrepareAt::ResolvingClone { local } => if self.config.branch is None {
                        self.proceeds(PrepareAt::Branching { local }, path@, self.lock@, to)
                    } else {
                        self.settles(local, path@, to)
                    },
                    PrepareAt::ResolvingMount => self.proceeds(
                        PrepareAt::LocatingGit,
                        path@,
                        self.lock@,
                        to,
                    ),
                    _ => fails(to, out_of_step()),
                },
                Outcome::Output(output) => if self.runs_git() {
                    self.git_answered(output, to)
                } else {
                    match self.at {
                        PrepareAt::Copying { cache } => if output.code == Some(0i32) {
                            self.seeds(cache + 1, to)
                        } else {
                            fails(
                                to,
                                "seeding "@ + seen_from(
                                    self.config.repo@,
                                    dep_cache(cache as int),
                                ) + " failed: "@ + text::trimmed(utf8::text_of(output.stderr@)),
                            )
                        },
                        _ => fails(to, out_of_step()),
                    }
                },
                Outcome::Locked => if self.at is Locking {
                    yields(to, self.root@, Some(self.lock@))
                } else {
                    fails(to, out_of_step())
                },
                Outcome::Held => if self.at is Locking {
                    self.proceeds(PrepareAt::NamingHolder, self.root@, self.lock@, to)
                } else {
                    fails(to, out_of_step())
                },
                Outcome::Text(_) => fails(to, out_of_step()),
            }
        }
    }

    /// Whether the caches the preparation counts are there.
    pub open spec fn counts(&self) -> bool {
        match self.at {
            PrepareAt::Probing { cache } => cache < DEP_CACHES,
            PrepareAt::Ignoring { cache } => cache < DEP_CACHES,
            PrepareAt::Copying { cache } => cache < DEP_CACHES,
            _ => true,
        }
    }

    fn refuse(words: &str) -> (r: PrepareTurn)
        ensures
            fails(r, words@),
    {
        PrepareTurn::End(Err(WorkspaceError(words.to_owned())))
    }

    /// `first` and then `rest` of an error's words.
    fn refuse_naming(first: &str, name: &str, rest: &str, error: &str) -> (r: PrepareTurn)
        ensures
            fails(r, first@ + name@ + rest@ + error@),
    {
        let mut s = first.to_owned();
        s.append(name);
        s.append(rest);
        s.append(error);
        PrepareTurn::End(Err(WorkspaceError(s)))
    }

    /// The arguments of the git command at hand.
    fn args(&self) -> (r: Vec<String>)
        ensures
            text::texts(r@) == self.command(),
    {
        let r: Vec<String> = match self.at {
            PrepareAt::Cloning { .. } => match &self.config.branch {
                Some(branch) => vec![
                    "clone".to_owned(),
                    "--quiet".to_owned(),
                    "--branch".to_owned(),
                    branch.clone(),
                    "--end-of-options".to_owned(),
                    self.config.repo.clone(),
                    self.dest.clone(),
                ],
                None => vec![
                    "clone".to_owned(),
                    "--quiet".to_owned(),
                    "--end-of-options".to_owned(),
                    self.config.repo.clone(),
                    self.dest.clone(),
                ],
            },
            PrepareAt::Branching { .. } => {
                let mut branch = RUN_BRANCH_PREFIX.to_owned();
                branch.append(self.run_id.as_str());
                vec!["checkout".to_owned(), "--quiet".to_owned(), "-b".to_owned(), branch]
            },
            PrepareAt::Unlinking => vec![
                "remote".to_owned(),
                "remove".to_owned(),
                "origin".to_owned(),
            ],
            PrepareAt::Ignoring { cache } => {
                let mut dir = dep_cache_dir(cache).to_owned();
                dir.append("/");
                vec!["check-ignore".to_owned(), "-q".to_owned(), dir]
            },
            PrepareAt::LocatingGit => vec!["rev-parse".to_owned(), "--git-dir".to_owned()],
            _ => vec!["status".to_owned(), "--porcelain".to_owned()],
        };
        assert(text::texts(r@) =~= self.command());
        r
    }

    /// The preparation at the action it stands at.
    fn act(self) -> (r: PrepareTurn)
        ensures
            r matches PrepareTurn::Act(next, action) && next == self && next.asks(action),
    {
        let action = match self.at {
            PrepareAt::AskingSource => Action::IsDir(self.config.repo.clone()),
            PrepareAt::AskingMount => Action::IsDir(self.config.repo.clone()),
            PrepareAt::Cloning { .. } => Action::Git { dir: None, args: self.args() },
            PrepareAt::ResolvingClone { .. } => Action::Canonicalize(self.dest.clone()),
            PrepareAt::ResolvingMount => Action::Canonicalize(self.config.repo.clone()),
            PrepareAt::Probing { cache } => Action::Seedable {
                from: resolve_from(self.config.repo.as_str(), dep_cache_dir(cache)),
                to: resolve_from(self.root.as_str(), dep_cache_dir(cache)),
            },
            PrepareAt::Copying { cache } => Action::Copy {
                from: resolve_from(self.config.repo.as_str(), dep_cache_dir(cache)),
                to: resolve_from(self.root.as_str(), dep_cache_dir(cache)),
            },
            PrepareAt::Locking => Action::Lock {
                path: self.lock.clone(),
                holder: self.run_id.as_str().to_owned(),
            },
            PrepareAt::NamingHolder => Action::ReadText(self.lock.clone()),
            _ => Action::Git { dir: Some(self.root.clone()), args: self.args() },
        };
        PrepareTurn::Act(self, action)
    }

    fn finish(root: String, lock: Option<String>) -> (r: PrepareTurn)
        ensures
            yields(
                r,
                root@,
                match lock {
                    Some(path) => Some(path@),
                    None => None,
                },
            ),
    {
        PrepareTurn::End(Ok(Workspace { root, push_branch: None, lock }))
    }

    fn settle(self, local: bool) -> (r: PrepareTurn)
        ensures
            self.settles(local, self.root@, r),
    {
        let mut next = self;
        if local {
            next.at = PrepareAt::Unlinking;
            next.act()
        } else {
            Preparation::finish(next.root, None)
        }
    }

    fn seed(self, cache: usize) -> (r: PrepareTurn)
        ensures
            self.seeds(cache as int, r),
    {
        let mut next = self;
        if cache < DEP_CACHES {
            next.at = PrepareAt::Probing { cache };
            next.act()
        } else {
            Preparation::finish(next.root, None)
        }
    }

    fn answer_git(self, output: CommandOutput) -> (r: PrepareTurn)
        requires
            self.runs_git(),
            self.counts(),
        ensures
            self.git_answered(output, r),
    {
        let mut next = self;
        if let PrepareAt::Ignoring { cache } = next.at {
            match output.code {
                Some(0) => {
                    next.at = PrepareAt::Copying { cache };
                    return next.act();
                },
                Some(1) => return next.seed(cache + 1),
                _ => return PrepareTurn::End(
                    Err(workspace::git_failure("check-ignore", &output)),
                ),
            }
        }
        let args = next.args();
        let stdout = match workspace::git_ok(&args, &output) {
            Ok(stdout) => stdout,
            Err(error) => return PrepareTurn::End(Err(error)),
        };
        match next.at {
            PrepareAt::Cloning { local } => {
                next.at = PrepareAt::ResolvingClone { local };
                next.act()
            },
            PrepareAt::Branching { local } => next.settle(local),
            PrepareAt::Unlinking => next.seed(0),
            PrepareAt::LocatingGit => {
                let git_dir = text::trim(stdout.as_str());
                let dir = resolve_from(next.root.as_str(), git_dir.as_str());
                next.lock = resolve_from(dir.as_str(), MOUNT_LOCK_FILE);
                next.at = PrepareAt::Inspecting;
                next.act()
            },
            _ => {
                let status = text::trim(stdout.as_str());
                if !status.as_str().is_empty() && !next.config.force {
                    let mut s = next.root;
                    s.append(
                        " has uncommitted changes the run would sweep into its checkpoints; commit or stash them, or set workspace.force = true to accept that",
                    );
                    return PrepareTurn::End(Err(WorkspaceError(s)));
                }
                next.at = PrepareAt::Locking;
                next.act()
            },
        }
    }

    fn give_up(self, error: &str) -> (r: PrepareTurn)
        requires
            !(self.at is NamingHolder),
        ensures
            self.gave_up(error@, r),
    {
        match self.at {
            PrepareAt::ResolvingClone { .. } => Preparation::refuse_naming(
                "cannot resolve ",
                self.dest.as_str(),
                ": ",
                error,
            ),
            PrepareAt::ResolvingMount => Preparation::refuse_naming(
                "cannot resolve ",
                self.config.repo.as_str(),
                ": ",
                error,
            ),
            PrepareAt::Copying { .. } => {
                let mut s = "cannot run cp: ".to_owned();
                s.append(error);
                PrepareTurn::End(Err(WorkspaceError(s)))
            },
            PrepareAt::Locking => Preparation::refuse_naming(
                "cannot lock ",
                self.lock.as_str(),
                ": ",
                error,
            ),
            PrepareAt::AskingSource => Preparation::refuse("a reply arrived out of step"),
            PrepareAt::AskingMount => Preparation::refuse("a reply arrived out of step"),
            PrepareAt::Probing { .. } => Preparation::refuse("a reply arrived out of step"),
            _ => {
                let mut s = "cannot run git: ".to_owned();
                s.append(error);
                PrepareTurn::End(Err(WorkspaceError(s)))
            },
        }
    }

    /// The refusal of a mount that another run holds.
    fn refuse_held(&self, reply: &Outcome) -> (r: PrepareTurn)
        ensures
            fails(
                r,
                self.root@ + " is already mounted by "@ + holder(*reply)
                    + "; wait for it, or remove "@ + self.lock@ + " if that run is gone"@,
            ),
    {
        let mut s = self.root.clone();
        s.append(" is already mounted by ");
        let who = match reply {
            Outcome::Text(id) => {
                let id = text::trim(id.as_str());
                if id.as_str().is_empty() {
                    "another run".to_owned()
                } else {
                    let mut who = "run ".to_owned();
                    who.append(id.as_str());
                    who
                }
            },
            _ => "another run".to_owned(),
        };
        s.append(who.as_str());
        s.append("; wait for it, or remove ");
        s.append(self.lock.as_str());
        s.append(" if that run is gone");
        PrepareTurn::End(Err(WorkspaceError(s)))
    }

    /// Takes what came of the action at hand.
    pub fn answer(self, reply: Outcome) -> (r: PrepareTurn)
        requires
            self.counts(),
        ensures
            self.answered(reply, r),
            r matches PrepareTurn::Act(next, _) ==> next.counts(),
    {
        if let PrepareAt::NamingHolder = self.at {
            return self.refuse_held(&reply);
        }
        match reply {
            Outcome::Failed(error) => self.give_up(error.as_str()),
            Outcome::Answer(yes) => {
                let mut next = self;
                match next.at {
                    PrepareAt::AskingSource => {
                        next.at = PrepareAt::Cloning { local: yes };
                        next.act()
                    },
                    PrepareAt::AskingMount => if yes {
                        next.at = PrepareAt::ResolvingMount;
                        next.act()
                    } else {
                        let mut s = "mount path ".to_owned();
                        s.append(next.config.repo.as_str());
                        s.append(" is not a directory");
                        PrepareTurn::End(Err(WorkspaceError(s)))
                    },
                    PrepareAt::Probing { cache } => if yes {
                        next.at = PrepareAt::Ignoring { cache };
                        next.act()
                    } else {
                        next.seed(cache + 1)
                    },
                    _ => Preparation::refuse("a reply arrived out of step"),
                }
            },
            Outcome::Path(path) => {
                let mut next = self;
                match next.at {
                    PrepareAt::ResolvingClone { local } => {
                        next.root = path;
                        if next.config.branch.is_none() {
                            next.at = PrepareAt::Branching { local };
                            next.act()
                        } else {
                            next.settle(local)
                        }
                    },
                    PrepareAt::ResolvingMount => {
                        next.root = path;
                        next.at = PrepareAt::LocatingGit;
                        next.act()
                    },
                    _ => Preparation::refuse("a reply arrived out of step"),
                }
            },
            Outcome::Output(output) => match self.at {
                PrepareAt::Cloning { .. } => self.answer_git(output),
                PrepareAt::Branching { .. } => self.answer_git(output),
                PrepareAt::Unlinking => self.answer_git(output),
                PrepareAt::Ignoring { .. } => self.answer_git(output),
                PrepareAt::LocatingGit => self.answer_git(output),
                PrepareAt::Inspecting => self.answer_git(output),
                PrepareAt::Copying { cache } => if workspace::succeeded(&output) {
                    self.seed(cache + 1)
                } else {
                    let from = resolve_from(self.config.repo.as_str(), dep_cache_dir(cache));
                    let stderr = utf8::into_text(output.stderr);
                    let why = text::trim(stderr.as_str());
                    Preparation::refuse_naming("seeding ", from.as_str(), " failed: ", why.as_str())
                },
                _ => Preparation::refuse("a reply arrived out of step"),
            },
            Outcome::Locked => match self.at {
                PrepareAt::Locking => Preparation::finish(self.root, Some(self.lock)),
                _ => Preparation::refuse("a reply arrived out of step"),
            },
            Outcome::Held => match self.at {
                PrepareAt::Locking => {
                    let mut next = self;
                    next.at = PrepareAt::NamingHolder;
                    next.act()
                },
                _ => Preparation::refuse("a reply arrived out of step"),
            },
            Outcome::Text(_) => Preparation::refuse("a reply arrived out of step"),
        }
    }
}

/// Whether `r` is where preparing a workspace begins: a clone by asking what
/// its source is, a mount by asking whether its path is a directory; a flow
/// whose options belong to the other mode is refused.
pub open spec fn begins(
    config: WorkspaceConfig,
    run_id: Seq<char>,
    dest: Seq<char>,
    r: PrepareTurn,
) -> bool {
    let starts = |at: PrepareAt|
        r matches PrepareTurn::Act(next, action) && next.config == config && next.run_id@ == run_id
            && next.dest@ == dest && next.at == at && next.asks(action);
    match config.mode {
        WorkspaceMode::Clone => if config.force {
            fails(
                r,
                "workspace.force only applies to mount mode — clone mode never works in a checkout that could be dirty"@,
            )
        } else {
            starts(PrepareAt::AskingSource)
        },
        WorkspaceMode::Mount => if config.branch is Some {
            fails(
                r,
                "workspace.branch only applies to clone mode — a mounted checkout works on the branch it already has checked out"@,
            )
        } else {
            starts(PrepareAt::AskingMount)
        },
    }
}

/// Prepares the run's workspace as the flow asks. `clone_dest` is where a
/// clone lands; mount mode ignores it and works at the repository itself.
pub fn prepare(config: WorkspaceConfig, run_id: RunId, clone_dest: &str) -> (r: PrepareTurn)
    ensures
        begins(config, run_id@, clone_dest@, r),
        r matches PrepareTurn::Act(next, _) ==> next.counts(),
{
    let at = match config.mode {
        WorkspaceMode::Clone => {
            if config.force {
                return Preparation::refuse(
                    "workspace.force only applies to mount mode — clone mode never works in a checkout that could be dirty",
                );
            }
            PrepareAt::AskingSource
        },
        WorkspaceMode::Mount => {
            if config.branch.is_some() {
                return Preparation::refuse(
                    "workspace.branch only applies to clone mode — a mounted checkout works on the branch it already has checked out",
                );
            }
            PrepareAt::AskingMount
        },
    };
    let preparation = Preparation {
        config,
        run_id,
        dest: clone_dest.to_owned(),
        at,
        root: String::new(),
        lock: String::new(),
    };
    preparation.act()
}

/// Whether a reply takes a preparation to another state of it.
pub open spec fn leads(step: (Preparation, Outcome), next: Preparation) -> bool {
    exists|action: Action| #[trigger] step.0.answered(step.1, PrepareTurn::Act(next, action))
}

/// A preparation from some state on: each state with the reply it got, and
/// where the last reply took it.
pub open spec fn plays(trace: Seq<(Preparation, Outcome)>, end: PrepareTurn) -> bool {
    &&& trace.len() > 0
    &&& forall|i: int, j: int|
        0 <= i < j < trace.len() && j == i + 1 ==> #[trigger] leads(trace[i], trace[j].0)
    &&& trace.last().0.answered(trace.last().1, end)
}

/// Whether a preparation stands past the unlinking of a local source.
pub open spec fn past_unlinking(at: PrepareAt) -> bool {
    at is Probing || at is Ignoring || at is Copying
}

/// Whether a preparation is a clone of a local source that still has its
/// remote.
pub open spec fn still_linked(at: PrepareAt) -> bool {
    ||| at == (PrepareAt::Cloning { local: true })
    ||| at == (PrepareAt::ResolvingClone { local: true })
    ||| at == (PrepareAt::Branching { local: true })
    ||| at is Unlinking
}

/// Whether a step of a trace removed the remote.
pub open spec fn unlinks(step: (Preparation, Outcome)) -> bool {
    step.0.at is Unlinking && (step.1 matches Outcome::Output(output) && output.code == Some(0i32))
}

/// The user's repository is unreachable by construction: the clone of a local
/// path is handed over only after its remote was removed.
pub proof fn a_local_clone_is_handed_over_without_a_remote(
    trace: Seq<(Preparation, Outcome)>,
    end: PrepareTurn,
)
    requires
        plays(trace, end),
        trace[0].0.at is AskingSource,
        trace[0].1 == Outcome::Answer(true),
        end matches PrepareTurn::End(Ok(_)),
    ensures
        exists|i: int| 0 <= i < trace.len() && unlinks(#[trigger] trace[i]),
{
    lemma_linked_until_unlinked(trace, end, trace.len() - 1);
}

proof fn lemma_linked_until_unlinked(
    trace: Seq<(Preparation, Outcome)>,
    end: PrepareTurn,
    n: int,
)
    requires
        plays(trace, end),
        trace[0].0.at is AskingSource,
        trace[0].1 == Outcome::Answer(true),
        0 <= n < trace.len(),
    ensures
        n == 0 || still_linked(trace[n].0.at) || (past_unlinking(trace[n].0.at) && exists|i: int|
            0 <= i < n && unlinks(#[trigger] trace[i])),
    decreases n,
{
    if n > 0 {
        lemma_linked_until_unlinked(trace, end, n - 1);
        let before = trace[n - 1];
        assert(leads(trace[n - 1], trace[n].0));
        if past_unlinking(trace[n].0.at) && !past_unlinking(before.0.at) {
            assert(unlinks(trace[n - 1]));
        }
    }
}

/// A clone without a branch to continue is handed over only after the run's
/// own branch was created.
pub proof fn a_clone_lands_on_its_run_branch(trace: Seq<(Preparation, Outcome)>, end: PrepareTurn)
    requires
        plays(trace, end),
        trace[0].0.at is AskingSource,
        trace[0].0.config.branch is None,
        end matches PrepareTurn::End(Ok(_)),
    ensures
        exists|i: int|
            0 <= i < trace.len() && (#[trigger] trace[i]).0.at is Branching && (
            trace[i].1 matches Outcome::Output(output) && output.code == Some(0i32))
                && trace[i].0.command() == seq![
                "checkout"@,
                "--quiet"@,
                "-b"@,
                RUN_BRANCH_PREFIX@ + trace[0].0.run_id@,
            ],
{
    lemma_branched(trace, end, trace.len() - 1);
}

/// Whether a step of a trace created the run branch.
pub open spec fn branches(step: (Preparation, Outcome)) -> bool {
    step.0.at is Branching && (step.1 matches Outcome::Output(output) && output.code == Some(0i32))
}

proof fn lemma_branched(trace: Seq<(Preparation, Outcome)>, end: PrepareTurn, n: int)
    requires
        plays(trace, end),
        trace[0].0.at is AskingSource,
        trace[0].0.config.branch is None,
        0 <= n < trace.len(),
    ensures
        trace[n].0.config.branch is None,
        trace[n].0.run_id == trace[0].0.run_id,
        trace[n].0.at is AskingSource || trace[n].0.at is Cloning || trace[n].0.at is ResolvingClone
            || trace[n].0.at is Branching || ((past_unlinking(trace[n].0.at)
            || trace[n].0.at is Unlinking) && exists|i: int|
            0 <= i < n && branches(#[trigger] trace[i]) && trace[i].0.run_id == trace[0].0.run_id),
    decreases n,
{
    if n > 0 {
        lemma_branched(trace, end, n - 1);
        let before = trace[n - 1];
        assert(leads(trace[n - 1], trace[n].0));
        if trace[n].0.at is Unlinking && !(before.0.at is Unlinking) {
            assert(branches(trace[n - 1]));
        }
    }
}

/// A mount never sweeps up changes it was not told to: with uncommitted
/// changes and without force, no lock is taken.
pub proof fn a_dirty_mount_is_refused_unless_forced(
    preparation: Preparation,
    output: CommandOutput,
    to: PrepareTurn,
)
    requires
        preparation.at is Inspecting,
        output.code == Some(0i32),
        text::trimmed(utf8::text_of(output.stdout@)).len() > 0,
        preparation.answered(Outcome::Output(output), to),
    ensures
        preparation.config.force ==> (to matches PrepareTurn::Act(next, _) && next.at is Locking),
        !preparation.config.force ==> (to matches PrepareTurn::End(Err(_))),
{
}

} // verus!
