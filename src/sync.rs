use vstd::prelude::*;
use vstd::string::*;

use crate::backup::{backup_path, backup_path_with_suffix};
use crate::changes::{change_view, undo_of, Action, ActionView, Change, ChangeStack};
use crate::path::{dir_of, join_path, split_path};
use crate::store::{absolute, clean_text, cleaned_of};
use crate::text::same_text;

verus! {

/// What was found at a path on the filesystem.
#[derive(Debug)]
pub enum FileKind {
    /// Nothing is there.
    Missing,
    /// A symbolic link that points to the given path.
    Link(String),
    /// A file or a directory.
    Present,
}

/// Why the sync of one tracked entry did not complete.
#[derive(PartialEq, Eq, Structural, Clone, Copy, Debug)]
pub enum EntryError {
    /// The tracked file does not exist on the filesystem.
    FileNotFound,
    /// The repository holds no copy of the tracked file.
    RepositoryFileMissing,
    /// The tracked file is a symbolic link that points outside the repository.
    UntrackedSymlinkedFile,
    /// The tracked path names no file.
    InvalidPath,
    /// A file could not be moved.
    RenameFailed,
    /// The link could not be created; what had been moved was moved back.
    SymlinkFailed,
    /// Moving back after a failed link failed too: the filesystem may be
    /// left inconsistent.
    RollbackFailed,
}

/// How the sync of one tracked entry ended.
#[derive(PartialEq, Eq, Structural, Clone, Copy, Debug)]
pub enum Outcome {
    /// The file now lives in the repository and is linked from its place.
    Linked,
    /// The link was in place already: nothing was done.
    AlreadyLinked,
    Failed(EntryError),
}

/// Where the sync of one entry stands.
#[derive(PartialEq, Eq, Structural, Clone, Copy, Debug)]
pub enum Stage {
    /// Waiting for the file to be moved into the repository.
    Moving,
    /// Waiting for the file in the way to be moved to its backup.
    BackingUp,
    /// Waiting for the link to be created.
    Linking,
    /// Waiting for a move to be undone.
    RollingBack,
    Finished(Outcome),
}

/// The sync of one tracked entry: it hands out one filesystem action at a
/// time and is told whether the action succeeded.
pub struct EntrySync {
    file: String,
    repo: String,
    backup: String,
    stage: Stage,
    changes: ChangeStack,
}

/// A move of `from` to `to`.
pub open spec fn rename_view(from: Seq<char>, to: Seq<char>) -> ActionView {
    ActionView::Rename { from, to }
}

/// A link at `link` to `target`.
pub open spec fn symlink_view(target: Seq<char>, link: Seq<char>) -> ActionView {
    ActionView::Symlink { target, link }
}

/// A stage from which no action follows.
pub open spec fn is_finished(s: Stage) -> bool {
    s is Finished
}

fn copy_text(s: &String) -> (r: String)
    ensures
        r@ == s@,
{
    s.clone()
}

/// Where a link at `file` that holds `target` leads: `target` itself when
/// absolute, else `target` taken from the directory of `file`; cleaned.
pub open spec fn link_destination(file: Seq<char>, target: Seq<char>) -> Seq<char> {
    cleaned_of(absolute(target, dir_of(file)))
}

/// A link at `file` that holds `target` leads to `repo`.
pub open spec fn links_to(file: Seq<char>, target: Seq<char>, repo: Seq<char>) -> bool {
    link_destination(file, target) == cleaned_of(repo)
}

/// Whether a link at `file` that holds `target` leads to `repo`.
pub fn link_leads_to(file: &str, target: &str, repo: &str) -> (r: bool)
    ensures
        r == links_to(file@, target@, repo@),
{
    let n = target.unicode_len();
    let full = if n > 0 && target.get_char(0) == '/' {
        String::from_str(target)
    } else {
        let (dir, _) = split_path(file);
        join_path(dir.as_str(), target)
    };
    let a = clean_text(full.as_str());
    let b = clean_text(repo);
    same_text(a.as_str(), b.as_str())
}

impl EntrySync {
    /// The tracked path on the filesystem.
    pub closed spec fn file_view(&self) -> Seq<char> {
        self.file@
    }

    /// The path of its copy in the repository.
    pub closed spec fn repo_view(&self) -> Seq<char> {
        self.repo@
    }

    /// The path that the file in the way is moved to, while backing up.
    pub closed spec fn backup_view(&self) -> Seq<char> {
        self.backup@
    }

    pub closed spec fn stage_view(&self) -> Stage {
        self.stage
    }

    /// The moves done so far and not undone, latest last.
    pub closed spec fn changes_view(&self) -> Seq<(Seq<char>, Seq<char>)> {
        self.changes@
    }

    fn finished(file: &str, repo: &str, outcome: Outcome) -> (r: EntrySync)
        ensures
            r.file_view() == file@,
            r.repo_view() == repo@,
            r.stage_view() == Stage::Finished(outcome),
            r.changes_view().len() == 0,
    {
        EntrySync {
            file: String::from_str(file),
            repo: String::from_str(repo),
            backup: String::from_str(file),
            stage: Stage::Finished(outcome),
            changes: ChangeStack::new(),
        }
    }

    /// Starts moving `file` into the repository at `repo`, given what was
    /// found at `file`. A link that leads to `repo` already is left alone
    /// and no action is asked for; a link elsewhere is refused; a missing
    /// file is reported and nothing else happens; anything else is first
    /// moved to `repo`.
    pub fn from_filesystem(file: &str, repo: &str, found: &FileKind) -> (r: (EntrySync, Option<Action>))
        ensures
            r.0.file_view() == file@,
            r.0.repo_view() == repo@,
            r.0.changes_view().len() == 0,
            match found {
                FileKind::Link(t) => if links_to(file@, t@, repo@) {
                    r.0.stage_view() == Stage::Finished(Outcome::AlreadyLinked) && r.1 is None
                } else {
                    r.0.stage_view() == Stage::Finished(
                        Outcome::Failed(EntryError::UntrackedSymlinkedFile),
                    ) && r.1 is None
                },
                FileKind::Missing => r.0.stage_view() == Stage::Finished(
                    Outcome::Failed(EntryError::FileNotFound),
                ) && r.1 is None,
                FileKind::Present => r.0.stage_view() == Stage::Moving && (r.1 matches Some(a)
                    && a@ == rename_view(file@, repo@)),
            },
    {
        match found {
            FileKind::Link(t) => {
                if link_leads_to(file, t.as_str(), repo) {
                    (EntrySync::finished(file, repo, Outcome::AlreadyLinked), None)
                } else {
                    (
                        EntrySync::finished(
                            file,
                            repo,
                            Outcome::Failed(EntryError::UntrackedSymlinkedFile),
                        ),
                        None,
                    )
                }
            },
            FileKind::Missing => (
                EntrySync::finished(file, repo, Outcome::Failed(EntryError::FileNotFound)),
                None,
            ),
            FileKind::Present => {
                let s = EntrySync {
                    file: String::from_str(file),
                    repo: String::from_str(repo),
                    backup: String::from_str(file),
                    stage: Stage::Moving,
                    changes: ChangeStack::new(),
                };
                let a = Action::Rename { from: String::from_str(file), to: String::from_str(repo) };
                (s, Some(a))
            },
        }
    }

    /// Starts linking `file` to its copy at `repo` in the repository, given
    /// whether that copy exists and what was found at `file`. A link that
    /// leads to `repo` already is left alone; anything else in the way is
    /// first moved to its backup, named with `suffix`; then the link is
    /// created.
    pub fn from_dotfiles(
        file: &str,
        repo: &str,
        repo_exists: bool,
        found: &FileKind,
        suffix: i32,
    ) -> (r: (EntrySync, Option<Action>))
        ensures
            r.0.file_view() == file@,
            r.0.repo_view() == repo@,
            r.0.changes_view().len() == 0,
            !repo_exists ==> r.0.stage_view() == Stage::Finished(
                Outcome::Failed(EntryError::RepositoryFileMissing),
            ) && r.1 is None,
            repo_exists ==> match found {
                FileKind::Missing => r.0.stage_view() == Stage::Linking && (r.1 matches Some(a)
                    && a@ == symlink_view(repo@, file@)),
                FileKind::Link(t) if links_to(file@, t@, repo@) => r.0.stage_view() == Stage::Finished(
                    Outcome::AlreadyLinked,
                ) && r.1 is None,
                _ => match backup_path(file@, suffix as int) {
                    Some(b) => r.0.stage_view() == Stage::BackingUp && r.0.backup_view() == b
                        && (r.1 matches Some(a) && a@ == rename_view(file@, b)),
                    None => r.0.stage_view() == Stage::Finished(
                        Outcome::Failed(EntryError::InvalidPath),
                    ) && r.1 is None,
                },
            },
    {
        if !repo_exists {
            return (
                EntrySync::finished(file, repo, Outcome::Failed(EntryError::RepositoryFileMissing)),
                None,
            );
        }
        let in_the_way = match found {
            FileKind::Missing => false,
            FileKind::Link(t) => {
                if link_leads_to(file, t.as_str(), repo) {
                    return (EntrySync::finished(file, repo, Outcome::AlreadyLinked), None);
                }
                true
            },
            FileKind::Present => true,
        };
        if !in_the_way {
            let s = EntrySync {
                file: String::from_str(file),
                repo: String::from_str(repo),
                backup: String::from_str(file),
                stage: Stage::Linking,
                changes: ChangeStack::new(),
            };
            let a = Action::Symlink { target: String::from_str(repo), link: String::from_str(file) };
            return (s, Some(a));
        }
        match backup_path_with_suffix(file, suffix) {
            Some(b) => {
                let a = Action::Rename { from: String::from_str(file), to: copy_text(&b) };
                let s = EntrySync {
                    file: String::from_str(file),
                    repo: String::from_str(repo),
                    backup: b,
                    stage: Stage::BackingUp,
                    changes: ChangeStack::new(),
                };
                (s, Some(a))
            },
            None => (
                EntrySync::finished(file, repo, Outcome::Failed(EntryError::InvalidPath)),
                None,
            ),
        }
    }

    /// Undoes the latest move that is still recorded, or ends with a failed
    /// link when none is left.
    fn roll_back_next(&mut self) -> (r: Option<Action>)
        ensures
            final(self).file_view() == old(self).file_view(),
            final(self).repo_view() == old(self).repo_view(),
            final(self).backup_view() == old(self).backup_view(),
            old(self).changes_view().len() == 0 ==> final(self).stage_view() == Stage::Finished(
                Outcome::Failed(EntryError::SymlinkFailed),
            ) && r is None && final(self).changes_view() == old(self).changes_view(),
            old(self).changes_view().len() > 0 ==> final(self).stage_view() == Stage::RollingBack
                && final(self).changes_view() == old(self).changes_view().drop_last() && (r matches Some(
                a,
            ) && a@ == undo_of(old(self).changes_view().last())),
    {
        match self.changes.pop() {
            Some(c) => {
                self.stage = Stage::RollingBack;
                Some(Action::Rename { from: c.to, to: c.from })
            },
            None => {
                self.stage = Stage::Finished(Outcome::Failed(EntryError::SymlinkFailed));
                None
            },
        }
    }

    /// Takes the result of the action last handed out and returns the
    /// next one, if any. A failed move ends the entry; a failed link undoes
    /// the moves done for it, latest first; a failed undo ends the entry
    /// with the one failure that must not go unnoticed.
    pub fn step(&mut self, succeeded: bool) -> (r: Option<Action>)
        requires
            !is_finished(old(self).stage_view()),
        ensures
            final(self).file_view() == old(self).file_view(),
            final(self).repo_view() == old(self).repo_view(),
            final(self).backup_view() == old(self).backup_view(),
            ({
                let o = *old(self);
                let f = *final(self);
                match o.stage_view() {
                    Stage::Moving | Stage::BackingUp => if succeeded {
                        let moved_to = if o.stage_view() == Stage::Moving {
                            o.repo_view()
                        } else {
                            o.backup_view()
                        };
                        f.stage_view() == Stage::Linking && f.changes_view()
                            == o.changes_view().push((o.file_view(), moved_to)) && (r matches Some(
                            a,
                        ) && a@ == symlink_view(o.repo_view(), o.file_view()))
                    } else {
                        f.stage_view() == Stage::Finished(Outcome::Failed(EntryError::RenameFailed))
                            && r is None
                    },
                    Stage::Linking => if succeeded {
                        f.stage_view() == Stage::Finished(Outcome::Linked) && r is None
                    } else if o.changes_view().len() == 0 {
                        f.stage_view() == Stage::Finished(Outcome::Failed(EntryError::SymlinkFailed))
                            && r is None
                    } else {
                        f.stage_view() == Stage::RollingBack && f.changes_view()
                            == o.changes_view().drop_last() && (r matches Some(a) && a@ == undo_of(
                            o.changes_view().last(),
                        ))
                    },
                    Stage::RollingBack => if !succeeded {
                        f.stage_view() == Stage::Finished(
                            Outcome::Failed(EntryError::RollbackFailed),
                        ) && r is None
                    } else if o.changes_view().len() == 0 {
                        f.stage_view() == Stage::Finished(Outcome::Failed(EntryError::SymlinkFailed))
                            && r is None
                    } else {
                        f.stage_view() == Stage::RollingBack && f.changes_view()
                            == o.changes_view().drop_last() && (r matches Some(a) && a@ == undo_of(
                            o.changes_view().last(),
                        ))
                    },
                    Stage::Finished(_) => false,
                }
            }),
    {
        match self.stage {
            Stage::Moving | Stage::BackingUp => {
                if succeeded {
                    let to = if self.stage == Stage::Moving {
                        copy_text(&self.repo)
                    } else {
                        copy_text(&self.backup)
                    };
                    self.changes.push(Change { from: copy_text(&self.file), to });
                    self.stage = Stage::Linking;
                    Some(Action::Symlink { target: copy_text(&self.repo), link: copy_text(&self.file) })
                } else {
                    self.stage = Stage::Finished(Outcome::Failed(EntryError::RenameFailed));
                    None
                }
            },
            Stage::Linking => {
                if succeeded {
                    self.stage = Stage::Finished(Outcome::Linked);
                    None
                } else {
                    self.roll_back_next()
                }
            },
            Stage::RollingBack => {
                if succeeded {
                    self.roll_back_next()
                } else {
                    self.stage = Stage::Finished(Outcome::Failed(EntryError::RollbackFailed));
                    None
                }
            },
            Stage::Finished(_) => None,
        }
    }

    /// Where the entry stands.
    pub fn stage(&self) -> (r: Stage)
        ensures
            r == self.stage_view(),
    {
        self.stage
    }

    /// How the entry ended, once it has.
    pub fn outcome(&self) -> (r: Option<Outcome>)
        ensures
            match self.stage_view() {
                Stage::Finished(o) => r == Some(o),
                _ => r is None,
            },
    {
        match self.stage {
            Stage::Finished(o) => Some(o),
            _ => None,
        }
    }
}

/// What must happen before a file is written at `file`, given what was
/// found there: nothing when it is free, else a move of what is in the
/// way to its backup, named with `suffix`.
pub fn backup_before_write(file: &str, found: &FileKind, suffix: i32) -> (r: Result<
    Option<Action>,
    EntryError,
>)
    ensures
        match found {
            FileKind::Missing => r matches Ok(None),
            _ => match backup_path(file@, suffix as int) {
                Some(b) => r matches Ok(Some(a)) && a@ == rename_view(file@, b),
                None => r matches Err(EntryError::InvalidPath),
            },
        },
{
    match found {
        FileKind::Missing => Ok(None),
        _ => match backup_path_with_suffix(file, suffix) {
            Some(b) => Ok(Some(Action::Rename { from: String::from_str(file), to: b })),
            None => Err(EntryError::InvalidPath),
        },
    }
}

/// An outcome that must stop the process: the filesystem may be left
/// inconsistent.
pub open spec fn is_fatal(o: Outcome) -> bool {
    o == Outcome::Failed(EntryError::RollbackFailed)
}

/// A pass fails as a whole only when one of its entries ended fatally.
pub open spec fn pass_fails(s: Seq<Outcome>) -> bool {
    exists|i: int| 0 <= i < s.len() && is_fatal(#[trigger] s[i])
}

/// The result of a whole pass: every entry was tried, and only a failed
/// roll-back makes the pass fail.
pub fn pass_result(outcomes: &Vec<Outcome>) -> (r: Result<(), EntryError>)
    ensures
        r is Err <==> pass_fails(outcomes@),
        r matches Err(e) ==> e == EntryError::RollbackFailed,
{
    let mut i: usize = 0;
    while i < outcomes.len()
        invariant
            i <= outcomes@.len(),
            forall|j: int| 0 <= j < i ==> !is_fatal(#[trigger] outcomes@[j]),
        decreases outcomes@.len() - i,
    {
        if outcomes[i] == Outcome::Failed(EntryError::RollbackFailed) {
            return Err(EntryError::RollbackFailed);
        }
        i = i + 1;
    }
    Ok(())
}

/// A missing file does not make a pass fail: it is reported and the pass
/// goes on with the next entry.
pub proof fn lemma_missing_file_continues(s: Seq<Outcome>)
    ensures
        pass_fails(s.push(Outcome::Failed(EntryError::FileNotFound))) == pass_fails(s),
{
    let t = s.push(Outcome::Failed(EntryError::FileNotFound));
    if pass_fails(t) {
        let i = choose|i: int| 0 <= i < t.len() && is_fatal(#[trigger] t[i]);
        assert(i < s.len());
        assert(is_fatal(s[i]));
    }
    if pass_fails(s) {
        let i = choose|i: int| 0 <= i < s.len() && is_fatal(#[trigger] s[i]);
        assert(is_fatal(t[i]));
    }
}

} // verus!
