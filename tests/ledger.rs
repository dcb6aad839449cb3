use dotfiles::error::PathError;
use dotfiles::ledger::Ledger;
use dotfiles::store::{add, remove};

#[test]
fn test_tracking_push_read_remove_clear() {
    let mut ledger = Ledger::new();

    let path = "file.txt";
    let path2 = "file2.txt";

    ledger.push(path).unwrap();
    ledger.push(path2).unwrap();

    let buf = ledger.to_text();
    assert_eq!(path, buf.lines().nth(0).unwrap());

    let volatile_buf = Ledger::from_text(&buf).list();
    assert_eq!(volatile_buf[0], buf.lines().nth(0).unwrap());
    assert_eq!(volatile_buf[0], path);

    ledger.remove(path);

    let buf = Ledger::from_text(&ledger.to_text()).list();
    assert_eq!(buf.len(), 1);

    ledger.clear();

    let buf = Ledger::from_text(&ledger.to_text()).list();
    assert_eq!(buf.len(), 0)
}

#[test]
fn ledger_text_round_trip() {
    let mut ledger = Ledger::new();
    for p in ["~/.bashrc", "/etc/hosts", "", "~/a b"] {
        ledger.push(p).unwrap();
    }
    let text = ledger.to_text();
    assert_eq!(text, "~/.bashrc\n/etc/hosts\n\n~/a b\n");
    assert_eq!(Ledger::from_text(&text).list(), ledger.list());
}

#[test]
fn ledger_reads_lines() {
    assert_eq!(Ledger::from_text("").list().len(), 0);
    assert_eq!(Ledger::from_text("a\nb").list(), vec!["a", "b"]);
    assert_eq!(Ledger::from_text("a\n\nb\n").list(), vec!["a", "", "b"]);
    assert_eq!(Ledger::from_text("\n").list(), vec![""]);
}

#[test]
fn ledger_add_is_idempotent() {
    let mut ledger = Ledger::from_text("a\nb\n");
    assert!(!ledger.push("a").unwrap());
    assert_eq!(ledger.list(), vec!["a", "b"]);
    assert!(ledger.push("c").unwrap());
    assert!(!ledger.push("c").unwrap());
    assert_eq!(ledger.list(), vec!["a", "b", "c"]);
    assert!(ledger.contains("c"));
}

#[test]
fn ledger_push_matches_whole_lines() {
    let mut ledger = Ledger::from_text("/etc/foobar\n");
    assert!(ledger.push("/etc/foo").unwrap());
    assert_eq!(ledger.list(), vec!["/etc/foobar", "/etc/foo"]);
}

#[test]
fn ledger_refuses_line_feeds() {
    let mut ledger = Ledger::new();
    match ledger.push("a\nb") {
        Err(PathError::InvalidLedgerEntry(p)) => assert_eq!(p, "a\nb"),
        other => panic!("unexpected result: {:?}", other),
    }
    assert_eq!(ledger.list().len(), 0);
}

#[test]
fn ledger_remove_drops_every_copy() {
    let mut ledger = Ledger::from_text("a\nb\na\nc\n");
    assert!(ledger.remove("a"));
    assert_eq!(ledger.list(), vec!["b", "c"]);
    assert!(!ledger.remove("a"));
    assert!(!ledger.contains("a"));
}

#[test]
fn add_then_remove_round_trip() {
    let home = "/home/user";
    let mut tracking = Ledger::new();
    let mut removed = Ledger::new();
    assert!(add(&mut tracking, ".vimrc", home, home).unwrap());
    assert!(!add(&mut tracking, "/home/user/.vimrc", "/", home).unwrap());
    assert_eq!(tracking.list(), vec!["~/.vimrc"]);
    assert_eq!(tracking.list().iter().filter(|e| *e == "~/.vimrc").count(), 1);

    assert!(remove(&mut tracking, &mut removed, "/home/user/./.vimrc", "/", home).unwrap());
    assert!(!tracking.contains("~/.vimrc"));
    assert_eq!(removed.list(), vec!["~/.vimrc"]);
    assert!(!remove(&mut tracking, &mut removed, "/home/user/.vimrc", "/", home).unwrap());
    assert_eq!(removed.list(), vec!["~/.vimrc"]);
}

#[test]
fn ledger_reads_crlf_line_endings() {
    assert_eq!(Ledger::from_text("a\r\nb\n").list(), vec!["a", "b"]);
    assert_eq!(Ledger::from_text("a\r\n\r\nb").list(), vec!["a", "", "b"]);
    assert_eq!(Ledger::from_text("a\r\r\n").list(), vec!["a\r"]);
    assert_eq!(Ledger::from_text("a\r").list(), vec!["a\r"]);
}

#[test]
fn ledger_refuses_a_trailing_carriage_return() {
    let mut ledger = Ledger::new();
    match ledger.push("a\r") {
        Err(PathError::InvalidLedgerEntry(p)) => assert_eq!(p, "a\r"),
        other => panic!("unexpected result: {:?}", other),
    }
    assert!(ledger.push("a\rb").unwrap());
    assert_eq!(Ledger::from_text(&ledger.to_text()).list(), vec!["a\rb"]);
}
