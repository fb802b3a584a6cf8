use safe_rm::config;
use safe_rm::config::{config_files, record_line, ConfigFile, Content};
use safe_rm::defaults::default_paths;
use safe_rm::expand::{Expansion, LineOutcome};
use safe_rm::report::Warning;
use std::io::Write;
use std::path::{Path, PathBuf};

fn strings(v: &[&str]) -> Vec<String> {
    v.iter().map(|s| s.to_string()).collect()
}

/// Makes the file `name` in `dir` with the given content.
fn create(dir: &Path, name: &str, content: &str) -> PathBuf {
    let mut file = tempfile::NamedTempFile::new_in(dir).unwrap();
    file.write_all(content.as_bytes()).unwrap();
    let path = dir.join(name);
    file.persist(&path).unwrap();
    path
}

fn lines(name: &str, lines: &[&str]) -> ConfigFile {
    ConfigFile {
        name: name.to_string(),
        content: Content::Lines(lines.iter().map(|l| Some(l.to_string())).collect()),
    }
}

#[test]
fn read_config() {
    {
        let oneline = lines("oneline", &["/home"]);
        let mut warnings = Vec::new();
        let paths = config::read_config(&oneline, &mut warnings).unwrap();
        assert_eq!(paths.len(), 1);
        assert_eq!(paths, vec!["/home".to_string()]);
        assert!(warnings.is_empty());

        // A file that cannot be opened is an error.
        let unreadable = ConfigFile { name: "oneline".to_string(), content: Content::Unreadable };
        assert!(config::read_config(&unreadable, &mut warnings).is_none());
        assert_eq!(warnings, vec![Warning::CannotOpen { file: "oneline".to_string() }]);

        // Missing file
        let missing = ConfigFile { name: "missing".to_string(), content: Content::Missing };
        let mut warnings = Vec::new();
        let paths = config::read_config(&missing, &mut warnings).unwrap();
        assert!(paths.is_empty());
        assert!(warnings.is_empty());
    }
    {
        let mut warnings = Vec::new();
        assert!(config::read_config(&lines("empty", &[]), &mut warnings).unwrap().is_empty());
    }
}

#[test]
fn read_config_files() {
    let file1 = || lines("home", &["/home"]);
    let file2 = || lines("tmp", &["/tmp"]);
    let mut warnings = Vec::new();

    // Empty config
    assert_eq!(config::read_config_files(&vec![], &mut warnings).len(), default_paths().len());

    // Sorted
    assert_eq!(
        config::read_config_files(&vec![file2(), file1()], &mut warnings),
        vec!["/home".to_string(), "/tmp".to_string()]
    );

    // Duplicate lines
    assert_eq!(
        config::read_config_files(&vec![file1(), file1()], &mut warnings),
        vec!["/home".to_string()]
    );
    assert!(warnings.is_empty());
}

#[test]
fn read_config_files_without_sources_gives_the_defaults() {
    let mut warnings = Vec::new();
    assert_eq!(config::read_config_files(&vec![], &mut warnings), default_paths());
    let missing = ConfigFile { name: "/nowhere".to_string(), content: Content::Missing };
    let empty = lines("/etc/empty", &[]);
    assert_eq!(config::read_config_files(&vec![missing, empty], &mut warnings), default_paths());
    assert!(warnings.is_empty());
}

#[test]
fn read_config_files_warns_of_a_file_that_cannot_be_opened() {
    let mut warnings = vec![Warning::UnreadableLine { file: "earlier".to_string() }];
    let locked = ConfigFile { name: "/etc/locked".to_string(), content: Content::Unreadable };
    let paths = config::read_config_files(&vec![locked, lines("/etc/conf", &["/home"])], &mut warnings);
    assert_eq!(paths, vec!["/home".to_string()]);
    assert_eq!(
        warnings,
        vec![
            Warning::UnreadableLine { file: "earlier".to_string() },
            Warning::CannotOpen { file: "/etc/locked".to_string() },
        ]
    );
}

#[test]
fn a_malformed_pattern_contributes_nothing() {
    let mut warnings = Vec::new();
    let file = lines("conf", &["/usr/***/bin"]);
    assert_eq!(config::read_config(&file, &mut warnings), Some(vec![]));
    assert_eq!(
        warnings,
        vec![Warning::InvalidPattern { file: "conf".to_string(), line: "/usr/***/bin".to_string() }]
    );
    let mut warnings = Vec::new();
    assert_eq!(config::read_config_files(&vec![file], &mut warnings), default_paths());
    assert_eq!(warnings.len(), 1);
}

#[test]
fn an_unreadable_line_is_skipped() {
    let file = ConfigFile {
        name: "conf".to_string(),
        content: Content::Lines(vec![None, Some("/home".to_string())]),
    };
    let mut warnings = Vec::new();
    assert_eq!(config::read_config(&file, &mut warnings), Some(vec!["/home".to_string()]));
    assert_eq!(warnings, vec![Warning::UnreadableLine { file: "conf".to_string() }]);
}

#[test]
fn lines_contribute_in_their_order() {
    let file = lines("conf", &["/usr", "/", "/usr"]);
    let mut warnings = Vec::new();
    assert_eq!(config::read_config(&file, &mut warnings), Some(strings(&["/usr", "/", "/usr"])));
    assert_eq!(
        config::read_config_files(&vec![file], &mut warnings),
        strings(&["/", "/usr"])
    );
}

#[test]
fn a_wildcard_protects_what_a_directory_holds() {
    let dir = tempfile::tempdir().unwrap();
    let file1 = create(dir.path(), "file1", "");
    let file2 = create(dir.path(), "file2", "");
    let pattern = dir.path().join("*").display().to_string();
    let mut warnings = Vec::new();
    let paths = config::read_config_files(&vec![lines("conf", &[&pattern])], &mut warnings);
    assert_eq!(paths, vec![file1.display().to_string(), file2.display().to_string()]);
}

#[test]
fn a_truncated_line_is_warned_of() {
    let mut warnings = Vec::new();
    let paths = config::read_config(&lines("conf", &["/**"]), &mut warnings).unwrap();
    assert_eq!(paths.len(), 256);
    let unread = Warning::UnreadableMatch { file: "conf".to_string(), line: "/**".to_string() };
    let (last, others) = warnings.split_last().unwrap();
    assert_eq!(*last, Warning::Truncated { file: "conf".to_string(), line: "/**".to_string() });
    assert!(others.iter().all(|w| *w == unread));
}

#[test]
fn record_line_adds_paths_and_warnings() {
    let mut paths = strings(&["/first"]);
    let mut warnings = Vec::new();
    let outcome = LineOutcome::Expanded(Expansion {
        paths: strings(&["/a", "/b"]),
        unreadable: 2,
        truncated: true,
    });
    let line = Some("/*".to_string());
    record_line("conf", &line, &outcome, &mut paths, &mut warnings);
    assert_eq!(paths, strings(&["/first", "/a", "/b"]));
    let unread = || Warning::UnreadableMatch { file: "conf".to_string(), line: "/*".to_string() };
    assert_eq!(
        warnings,
        vec![
            unread(),
            unread(),
            Warning::Truncated { file: "conf".to_string(), line: "/*".to_string() },
        ]
    );
    record_line("conf", &None, &LineOutcome::UnreadableLine, &mut paths, &mut warnings);
    record_line("conf", &Some("[".to_string()), &LineOutcome::InvalidPattern, &mut paths, &mut warnings);
    assert_eq!(paths.len(), 3);
    assert_eq!(warnings[3], Warning::UnreadableLine { file: "conf".to_string() });
    assert_eq!(
        warnings[4],
        Warning::InvalidPattern { file: "conf".to_string(), line: "[".to_string() }
    );
}

#[test]
fn config_files_lists_globals_then_locals_under_home() {
    let globals = strings(&["/etc/safe-rm.conf", "/usr/local/etc/safe-rm.conf"]);
    let locals = strings(&[".config/safe-rm", ".safe-rm"]);
    assert_eq!(
        config_files(&globals, &locals, &Some("/home/user".to_string())),
        strings(&[
            "/etc/safe-rm.conf",
            "/usr/local/etc/safe-rm.conf",
            "/home/user/.config/safe-rm",
            "/home/user/.safe-rm",
        ])
    );
    assert_eq!(config_files(&globals, &locals, &None), globals);
    assert_eq!(config_files(&vec![], &vec![], &None), strings(&[]));
}
