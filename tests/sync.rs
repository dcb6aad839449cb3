use dotfiles::backup::{backup_file_path, backup_path_with_suffix, decimal_text};
use dotfiles::changes::{Action, Change, ChangeStack};
use dotfiles::sync::{
    backup_before_write, link_leads_to, pass_result, EntryError, EntrySync, FileKind, Outcome, Stage,
};

fn renames(a: &Action, from: &str, to: &str) -> bool {
    matches!(a, Action::Rename { from: f, to: t } if f == from && t == to)
}

fn is_rename(a: &Option<Action>, from: &str, to: &str) -> bool {
    a.as_ref().map_or(false, |a| renames(a, from, to))
}

fn is_symlink(a: &Option<Action>, target: &str, link: &str) -> bool {
    matches!(a, Some(Action::Symlink { target: t, link: l }) if t == target && l == link)
}

#[test]
fn test_bkp_filename() {
    let backup = backup_path_with_suffix("/home/user/file.txt", 42).unwrap();
    assert_eq!(backup, "/home/user/file.txt.bkp-42");
    let backup = backup_file_path("/home/user/file.txt").unwrap();
    assert_ne!(backup, "/home/user/file.txt");
    assert!(backup.starts_with("/home/user/file.txt.bkp-"));
}

#[test]
fn backup_names_differ_by_suffix() {
    assert_eq!(backup_path_with_suffix("a", -7).unwrap(), "a.bkp--7");
    assert_ne!(backup_path_with_suffix("a", 1), backup_path_with_suffix("a", 2));
    assert!(backup_path_with_suffix("/a/..", 1).is_none());
    assert!(backup_file_path("/").is_none());
}

#[test]
fn decimal_text_writes_integers() {
    assert_eq!(decimal_text(0), "0");
    assert_eq!(decimal_text(7), "7");
    assert_eq!(decimal_text(1234567), "1234567");
    assert_eq!(decimal_text(-40), "-40");
    assert_eq!(decimal_text(i32::MAX), "2147483647");
    assert_eq!(decimal_text(i32::MIN), "-2147483648");
}

#[test]
fn change_stack_pops_latest_first() {
    let mut stack = ChangeStack::new();
    stack.push(Change { from: "a".to_string(), to: "b".to_string() });
    stack.push(Change { from: "c".to_string(), to: "d".to_string() });
    assert_eq!(stack.len(), 2);
    let top = stack.pop().unwrap();
    assert_eq!((top.from.as_str(), top.to.as_str()), ("c", "d"));
    assert_eq!(stack.len(), 1);
    stack.push(Change { from: "e".to_string(), to: "f".to_string() });
    let undo = stack.revert();
    assert_eq!(undo.len(), 2);
    assert!(renames(&undo[0], "f", "e"));
    assert!(renames(&undo[1], "b", "a"));
    let mut empty = ChangeStack::new();
    assert!(empty.pop().is_none());
}

#[test]
fn sync_from_filesystem_moves_then_links() {
    let (mut s, a) = EntrySync::from_filesystem("/home/u/.x", "/repo/.x", &FileKind::Present);
    assert!(is_rename(&a, "/home/u/.x", "/repo/.x"));
    assert_eq!(s.outcome(), None);
    let a = s.step(true);
    assert!(is_symlink(&a, "/repo/.x", "/home/u/.x"));
    let a = s.step(true);
    assert!(a.is_none());
    assert_eq!(s.outcome(), Some(Outcome::Linked));
}

#[test]
fn sync_from_filesystem_skips_a_linked_entry() {
    let (s, a) = EntrySync::from_filesystem(
        "/home/u/.x",
        "/repo/.x",
        &FileKind::Link("/repo/.x".to_string()),
    );
    assert!(a.is_none());
    assert_eq!(s.outcome(), Some(Outcome::AlreadyLinked));
}

#[test]
fn sync_from_filesystem_refuses_a_foreign_link() {
    let (s, a) = EntrySync::from_filesystem(
        "/home/u/.x",
        "/repo/.x",
        &FileKind::Link("/elsewhere".to_string()),
    );
    assert!(a.is_none());
    assert_eq!(s.outcome(), Some(Outcome::Failed(EntryError::UntrackedSymlinkedFile)));
}

#[test]
fn sync_from_filesystem_reports_a_missing_file_and_goes_on() {
    let (s, a) = EntrySync::from_filesystem("/home/u/.x", "/repo/.x", &FileKind::Missing);
    assert!(a.is_none());
    let missing = s.outcome().unwrap();
    assert_eq!(missing, Outcome::Failed(EntryError::FileNotFound));
    assert_eq!(pass_result(&vec![missing, Outcome::Linked]), Ok(()));
}

#[test]
fn sync_from_filesystem_stops_on_a_failed_move() {
    let (mut s, _) = EntrySync::from_filesystem("/f", "/repo/root/f", &FileKind::Present);
    assert!(s.step(false).is_none());
    assert_eq!(s.outcome(), Some(Outcome::Failed(EntryError::RenameFailed)));
}

#[test]
fn sync_rolls_back_a_failed_link() {
    let (mut s, _) = EntrySync::from_filesystem("/f", "/repo/root/f", &FileKind::Present);
    s.step(true);
    let a = s.step(false);
    assert!(is_rename(&a, "/repo/root/f", "/f"));
    assert_eq!(s.stage(), Stage::RollingBack);
    assert!(s.step(true).is_none());
    assert_eq!(s.outcome(), Some(Outcome::Failed(EntryError::SymlinkFailed)));
}

#[test]
fn sync_reports_a_failed_roll_back() {
    let (mut s, _) = EntrySync::from_filesystem("/f", "/repo/root/f", &FileKind::Present);
    s.step(true);
    s.step(false);
    assert!(s.step(false).is_none());
    let fatal = s.outcome().unwrap();
    assert_eq!(fatal, Outcome::Failed(EntryError::RollbackFailed));
    assert_eq!(
        pass_result(&vec![Outcome::Linked, fatal, Outcome::AlreadyLinked]),
        Err(EntryError::RollbackFailed)
    );
}

#[test]
fn sync_from_dotfiles_links_a_missing_file() {
    let (mut s, a) = EntrySync::from_dotfiles("/h/.x", "/repo/.x", true, &FileKind::Missing, 5);
    assert!(is_symlink(&a, "/repo/.x", "/h/.x"));
    assert!(s.step(true).is_none());
    assert_eq!(s.outcome(), Some(Outcome::Linked));
}

#[test]
fn sync_from_dotfiles_backs_up_what_is_in_the_way() {
    let (mut s, a) = EntrySync::from_dotfiles("/h/.x", "/repo/.x", true, &FileKind::Present, 5);
    assert!(is_rename(&a, "/h/.x", "/h/.x.bkp-5"));
    assert_eq!(s.stage(), Stage::BackingUp);
    let a = s.step(true);
    assert!(is_symlink(&a, "/repo/.x", "/h/.x"));
    let a = s.step(false);
    assert!(is_rename(&a, "/h/.x.bkp-5", "/h/.x"));
    assert!(s.step(true).is_none());
    assert_eq!(s.outcome(), Some(Outcome::Failed(EntryError::SymlinkFailed)));
}

#[test]
fn sync_from_dotfiles_replaces_a_foreign_link() {
    let (_, a) = EntrySync::from_dotfiles(
        "/h/.x",
        "/repo/.x",
        true,
        &FileKind::Link("/other".to_string()),
        -3,
    );
    assert!(is_rename(&a, "/h/.x", "/h/.x.bkp--3"));
}

#[test]
fn sync_from_dotfiles_skips_and_reports() {
    let (s, a) = EntrySync::from_dotfiles(
        "/h/.x",
        "/repo/.x",
        true,
        &FileKind::Link("/repo/.x".to_string()),
        0,
    );
    assert!(a.is_none());
    assert_eq!(s.outcome(), Some(Outcome::AlreadyLinked));
    let (s, a) = EntrySync::from_dotfiles("/h/.x", "/repo/.x", false, &FileKind::Present, 0);
    assert!(a.is_none());
    assert_eq!(s.outcome(), Some(Outcome::Failed(EntryError::RepositoryFileMissing)));
    let (mut s, _) = EntrySync::from_dotfiles("/h/.x", "/repo/.x", true, &FileKind::Missing, 0);
    assert!(s.step(false).is_none());
    assert_eq!(s.outcome(), Some(Outcome::Failed(EntryError::SymlinkFailed)));
    let (s, a) = EntrySync::from_dotfiles("/h/..", "/repo/x", true, &FileKind::Present, 0);
    assert!(a.is_none());
    assert_eq!(s.outcome(), Some(Outcome::Failed(EntryError::InvalidPath)));
}

#[test]
fn sync_backup_failure_stops_the_entry() {
    let (mut s, _) = EntrySync::from_dotfiles("/h/.x", "/repo/.x", true, &FileKind::Present, 1);
    assert!(s.step(false).is_none());
    assert_eq!(s.outcome(), Some(Outcome::Failed(EntryError::RenameFailed)));
}

#[test]
fn backup_before_write_moves_what_is_in_the_way() {
    assert!(backup_before_write("/h/.netrc", &FileKind::Missing, 3).unwrap().is_none());
    let a = backup_before_write("/h/.netrc", &FileKind::Present, 3).unwrap();
    assert!(is_rename(&a, "/h/.netrc", "/h/.netrc.bkp-3"));
    let a = backup_before_write("/h/.netrc", &FileKind::Link("/x".to_string()), 4).unwrap();
    assert!(is_rename(&a, "/h/.netrc", "/h/.netrc.bkp-4"));
    assert!(matches!(
        backup_before_write("/", &FileKind::Present, 3),
        Err(EntryError::InvalidPath)
    ));
}

#[test]
fn backup_of_a_path_with_a_trailing_separator_is_a_sibling() {
    assert_eq!(backup_path_with_suffix("/a/b/", 7).unwrap(), "/a/b.bkp-7");
    assert_eq!(backup_path_with_suffix("/a/b/.", 7).unwrap(), "/a/b.bkp-7");
    assert_eq!(backup_path_with_suffix("/x", 1).unwrap(), "/x.bkp-1");
    assert_eq!(backup_path_with_suffix("x", 1).unwrap(), "x.bkp-1");
    let b = backup_file_path("/a/b/").unwrap();
    assert!(b.starts_with("/a/b.bkp-"));
}

#[test]
fn a_relative_link_into_the_repository_counts_as_linked() {
    assert!(link_leads_to("/home/u/.x", "../../repo/.x", "/repo/.x"));
    assert!(link_leads_to("/home/u/.x", "/repo/./.x", "/repo/.x"));
    assert!(!link_leads_to("/home/u/.x", ".x", "/repo/.x"));
    let (s, a) = EntrySync::from_filesystem(
        "/home/u/.x",
        "/repo/.x",
        &FileKind::Link("../../repo/.x".to_string()),
    );
    assert!(a.is_none());
    assert_eq!(s.outcome(), Some(Outcome::AlreadyLinked));
}
