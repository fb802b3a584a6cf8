use safe_rm::filter;
use safe_rm::filter::Filtered;
use std::path::{Path, PathBuf};

fn strings(v: &[&str]) -> Vec<String> {
    v.iter().map(|s| s.to_string()).collect()
}

/// Makes the empty file `name` in `dir`.
fn create(dir: &Path, name: &str) -> PathBuf {
    let path = dir.join(name);
    tempfile::NamedTempFile::new_in(dir).unwrap().persist(&path).unwrap();
    path
}

fn kept(args: &[&str], protected: &[&str]) -> Vec<String> {
    filter::filter_arguments(&strings(args), &strings(protected)).kept
}

#[test]
fn filter_arguments() {
    // Simple cases
    assert_eq!(kept(&["/safe"], &["/safe"]), Vec::<String>::new());
    assert_eq!(kept(&["/safe", "/unsafe"], &["/safe"]), strings(&["/unsafe"]));

    // Degenerate cases
    assert_eq!(kept(&[], &[]), Vec::<String>::new());
    assert_eq!(kept(&["/safe", "/unsafe"], &[]), strings(&["/safe", "/unsafe"]));
    assert_eq!(kept(&[], &["/safe"]), Vec::<String>::new());

    // Relative path
    assert_eq!(kept(&["/../", "/unsafe"], &["/"]), strings(&["/unsafe"]));

    // Symlink tests
    {
        let dir = tempfile::tempdir().unwrap();
        let root = dir.path().canonicalize().unwrap();
        let empty_file = create(&root, "empty");

        // Normal symlinks should not be protected.
        let unprotected_symlink = root.join("unprotected_symlink");
        rustix::fs::symlink(&empty_file, &unprotected_symlink).unwrap();

        // A symlink explicitly listed in a config file should be protected.
        let protected_symlink = root.join("protected_symlink");
        rustix::fs::symlink(&empty_file, &protected_symlink).unwrap();

        // A symlink to a protected file should not be protected itself.
        let symlink_to_protected_file = root.join("usr");
        rustix::fs::symlink("/usr", &symlink_to_protected_file).unwrap();

        let text = |p: &PathBuf| p.display().to_string();
        assert_eq!(
            filter::filter_arguments(
                &vec![
                    text(&empty_file),
                    text(&unprotected_symlink),
                    text(&protected_symlink),
                    text(&symlink_to_protected_file),
                ],
                &vec!["/usr".to_string(), text(&protected_symlink)]
            )
            .kept,
            vec![text(&empty_file), text(&unprotected_symlink), text(&symlink_to_protected_file)]
        );
    }
}

#[test]
fn filter_arguments_reports_what_it_holds_back() {
    let r = filter::filter_arguments(
        &strings(&["/home", "-rf", "/home2", "/usr/"]),
        &strings(&["/home", "/usr"]),
    );
    assert_eq!(r.kept, strings(&["-rf", "/home2"]));
    assert_eq!(r.kept_at, vec![1, 2]);
    assert_eq!(r.skipped, strings(&["/home", "/usr/"]));
    assert_eq!(r.skipped_at, vec![0, 3]);
}

#[test]
fn flags_pass_through() {
    assert_eq!(kept(&["--help"], &[]), strings(&["--help"]));
    assert_eq!(kept(&["--help", "-rf"], &["/usr"]), strings(&["--help", "-rf"]));
}

#[test]
fn repeated_arguments_keep_their_places() {
    assert_eq!(
        kept(&["b", "/usr", "a", "b", "/usr", "a"], &["/usr"]),
        strings(&["b", "a", "b", "a"])
    );
    let r = filter::filter_arguments(
        &strings(&["b", "/usr", "a", "b", "/usr", "a"]),
        &strings(&["/usr"]),
    );
    assert_eq!(r.kept_at, vec![0, 2, 3, 5]);
    assert_eq!(r.skipped_at, vec![1, 4]);
}

#[test]
fn a_link_to_a_protected_path_is_judged_by_its_own_place() {
    let dir = tempfile::tempdir().unwrap();
    let root = dir.path().canonicalize().unwrap();
    let link = root.join("link").display().to_string();
    rustix::fs::symlink("/usr", &link).unwrap();
    assert_eq!(safe_rm::normalize::normalize_path(&link), link);
    assert_ne!(safe_rm::normalize::normalize_path(&link), safe_rm::normalize::normalize_path("/usr"));
    assert_eq!(kept(&[&link], &["/usr"]), vec![link.clone()]);
    assert_eq!(kept(&[&link], &[&link]), Vec::<String>::new());
    assert_eq!(kept(&["/usr/../usr"], &["/usr"]), Vec::<String>::new());
}

#[test]
fn a_link_is_placed_under_its_resolved_directory() {
    let dir = tempfile::tempdir().unwrap();
    let root = dir.path().canonicalize().unwrap();
    let sub = tempfile::tempdir_in(&root).unwrap();
    let link = root.join("link");
    rustix::fs::symlink("/usr", &link).unwrap();
    let roundabout = sub.path().join("..").join("link").display().to_string();
    assert_eq!(
        safe_rm::normalize::symlink_canonicalize(&roundabout),
        Some(link.display().to_string())
    );
    assert_eq!(safe_rm::normalize::normalize_path(&roundabout), link.display().to_string());
}

#[test]
fn judge_sorts_by_the_canonical_form() {
    let protected = strings(&["/usr"]);
    let mut f = Filtered::new();
    f.judge(0, "usr", "/usr", &protected);
    f.judge(1, "/usr", "/somewhere/else", &protected);
    f.judge(2, "-rf", "-rf", &protected);
    assert_eq!(
        f,
        Filtered {
            kept: strings(&["/usr", "-rf"]),
            kept_at: vec![1, 2],
            skipped: strings(&["usr"]),
            skipped_at: vec![0],
        }
    );
}
