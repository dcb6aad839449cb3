use dotfiles::error::PathError;
use dotfiles::expand::{locate_entry, lookup_variable, try_expand_path};
use dotfiles::path::{join_path, names_file, relative_path, secrets_root};
use dotfiles::store::{abbreviate_home, clean_path_to_store};

const HOME: &str = "/home/user";

#[test]
fn test_relative_path() {
    let relative_path = relative_path("/hello/world", HOME, "/").unwrap();

    assert_eq!(relative_path, "/hello/world");
}

#[test]
fn test_relative_path_from_home() {
    let relative_path = relative_path("/hello/world", "/hello", "/").unwrap();

    assert_eq!(relative_path, "/world");
}

#[test]
fn test_relative_path_from_root() {
    let relative_path = relative_path("/world", HOME, "/").unwrap();

    assert_eq!(relative_path, "/root/world");
}

#[test]
fn relative_path_mirrors_nested_directories() {
    assert_eq!(relative_path("/a/b/c", HOME, "/repo").unwrap(), "/repo/a/b/c");
    assert_eq!(relative_path("/etc/hosts", HOME, "/repo/").unwrap(), "/repo/etc/hosts");
}

#[test]
fn relative_path_places_home_files_at_the_top() {
    assert_eq!(relative_path("/home/user/.bashrc", HOME, "/repo").unwrap(), "/repo/.bashrc");
    assert_eq!(
        relative_path("/home/user/.config/nvim", HOME, "/repo").unwrap(),
        "/repo/home/user/.config/nvim"
    );
}

#[test]
fn relative_path_puts_root_files_in_their_subtree() {
    assert_eq!(relative_path("/x", HOME, "/repo").unwrap(), "/repo/root/x");
}

#[test]
fn relative_path_keeps_distinct_paths_apart() {
    let a = relative_path("/home/user/a", HOME, "/repo").unwrap();
    let b = relative_path("/a", HOME, "/repo").unwrap();
    let c = relative_path("/srv/a", HOME, "/repo").unwrap();
    assert_ne!(a, b);
    assert_ne!(a, c);
    assert_ne!(b, c);
}

#[test]
fn relative_path_refuses_a_path_without_a_name() {
    for bad in ["/", "", "/a/..", ".", "..", "./"] {
        match relative_path(bad, HOME, "/repo") {
            Err(PathError::FailedRetrievingFileMetadata(p)) => assert_eq!(p, bad),
            other => panic!("unexpected result for {:?}: {:?}", bad, other),
        }
    }
}

#[test]
fn join_path_adds_one_separator() {
    assert_eq!(join_path("/repo", "x"), "/repo/x");
    assert_eq!(join_path("/repo/", "x"), "/repo/x");
    assert_eq!(join_path("", "x"), "x");
    assert!(names_file("/a/b"));
    assert!(!names_file("/a/.."));
}

#[test]
fn test_clean_path_to_store() {
    let path = clean_path_to_store(HOME, "/", HOME);
    assert_eq!(path, "~");

    let path = clean_path_to_store("/.././path", "/", HOME);
    assert_eq!(path, "/path");

    let path = clean_path_to_store("path", "/", HOME);
    assert_eq!(path, "/path");
}

#[test]
fn clean_path_to_store_abbreviates_home() {
    assert_eq!(clean_path_to_store("/home/user/./.vimrc", "/", HOME), "~/.vimrc");
    assert_eq!(clean_path_to_store(".vimrc", HOME, HOME), "~/.vimrc");
    assert_eq!(clean_path_to_store("/home/username/x", "/", HOME), "/home/username/x");
    assert_eq!(clean_path_to_store("a//b/../c", "/tmp", HOME), "/tmp/a/c");
}

#[test]
fn abbreviate_home_matches_whole_components() {
    assert_eq!(abbreviate_home("/home/user", HOME), "~");
    assert_eq!(abbreviate_home("/home/user/a/b", HOME), "~/a/b");
    assert_eq!(abbreviate_home("/home/user/a", "/home/user/"), "~/a");
    assert_eq!(abbreviate_home("/home/users", HOME), "/home/users");
    assert_eq!(abbreviate_home("/etc/x", HOME), "/etc/x");
    assert_eq!(abbreviate_home("/etc/x", ""), "/etc/x");
}

#[test]
fn test_try_expand_path() {
    let vars = vec![("HOME".to_string(), HOME.to_string())];
    let path = "~";
    let path = try_expand_path(path, HOME, &vars).unwrap();

    assert_eq!(path, HOME);

    let path = "$HOME";
    let path = try_expand_path(path, HOME, &vars).unwrap();

    assert_eq!(path, HOME);
}

#[test]
fn try_expand_path_cleans_and_reports_unset_variables() {
    let vars = vec![("A".to_string(), "/x/y".to_string())];
    assert_eq!(try_expand_path("${A}/../z", HOME, &vars).unwrap(), "/x/z");
    assert_eq!(try_expand_path("~/a/./b", HOME, &vars).unwrap(), "/home/user/a/b");
    match try_expand_path("$UNSET/a", HOME, &vars) {
        Err(PathError::FailedExpandingPath(p)) => assert_eq!(p, "$UNSET/a"),
        other => panic!("unexpected result: {:?}", other),
    }
}

#[test]
fn lookup_variable_takes_the_first_match() {
    let vars = vec![
        ("A".to_string(), "1".to_string()),
        ("A".to_string(), "2".to_string()),
    ];
    assert_eq!(lookup_variable(&vars, "A"), Ok(Some("1".to_string())));
    assert_eq!(lookup_variable(&vars, "B"), Err(()));
}

#[test]
fn locate_entry_expands_then_maps() {
    let vars = vec![];
    let (file, repo) = locate_entry("~/.bashrc", HOME, &vars, "/repo").unwrap();
    assert_eq!(file, "/home/user/.bashrc");
    assert_eq!(repo, "/repo/.bashrc");
    let (file, repo) = locate_entry("/etc/x/../hosts", HOME, &vars, "/repo").unwrap();
    assert_eq!(file, "/etc/hosts");
    assert_eq!(repo, "/repo/etc/hosts");
    assert!(matches!(
        locate_entry("/", HOME, &vars, "/repo"),
        Err(PathError::FailedRetrievingFileMetadata(_))
    ));
    assert!(matches!(
        locate_entry("$NOPE", HOME, &vars, "/repo"),
        Err(PathError::FailedExpandingPath(_))
    ));
}

#[test]
fn secrets_live_in_their_own_subtree() {
    assert_eq!(secrets_root("/repo"), "/repo/secrets");
    let root = secrets_root("/repo/");
    assert_eq!(relative_path("/home/user/.netrc", HOME, &root).unwrap(), "/repo/secrets/.netrc");
}

#[test]
fn relative_path_reads_components_like_path() {
    assert_eq!(relative_path("/home/user/.config/", HOME, "/repo").unwrap(), "/repo/.config");
    assert_eq!(relative_path("/home/user/.config/.", HOME, "/repo").unwrap(), "/repo/.config");
    assert_eq!(relative_path("/home/user/.vimrc", "/home/user/", "/repo").unwrap(), "/repo/.vimrc");
    assert_eq!(relative_path("/etc/x//", HOME, "/repo").unwrap(), "/repo/etc/x");
    assert!(names_file("/a/b/"));
}

#[test]
fn abbreviate_home_ignores_trailing_separators_of_home() {
    assert_eq!(abbreviate_home("/home/user", "/home/user/"), "~");
    assert_eq!(abbreviate_home("/home/user/a", "/home/user//"), "~/a");
    assert_eq!(clean_path_to_store("/home/user/x", "/", "/home/user/"), "~/x");
}
