use safe_rm::config::protected_set;
use safe_rm::defaults::default_paths;
use safe_rm::protected::{contains_path, insert_path, sort_and_dedup};

fn strings(v: &[&str]) -> Vec<String> {
    v.iter().map(|s| s.to_string()).collect()
}

#[test]
fn default_paths_are_the_fixed_list() {
    let d = default_paths();
    assert_eq!(d.len(), 26);
    assert_eq!(d[0], "/bin");
    assert_eq!(d[5], "/initrd");
    assert_eq!(d[25], "/var");
    assert!(d.contains(&"/usr/local/share".to_string()));
    let mut sorted = d.clone();
    sorted.sort();
    sorted.dedup();
    assert_eq!(sorted, d);
}

#[test]
fn sort_and_dedup_sorts_and_keeps_one_of_each() {
    assert_eq!(sort_and_dedup(&strings(&["/tmp", "/home"])), strings(&["/home", "/tmp"]));
    assert_eq!(sort_and_dedup(&strings(&["/home", "/home"])), strings(&["/home"]));
    assert_eq!(
        sort_and_dedup(&strings(&["/b", "/a", "/c", "/a", "/b", "/"])),
        strings(&["/", "/a", "/b", "/c"])
    );
    assert_eq!(sort_and_dedup(&strings(&[])), strings(&[]));
}

#[test]
fn sort_and_dedup_does_not_depend_on_order_or_repetition() {
    let a = sort_and_dedup(&strings(&["/x", "/y", "/z", "/x"]));
    let b = sort_and_dedup(&strings(&["/z", "/z", "/y", "/x"]));
    assert_eq!(a, b);
    assert_eq!(sort_and_dedup(&a), a);
}

#[test]
fn insert_path_keeps_the_order() {
    let mut set = strings(&["/a", "/c"]);
    insert_path(&mut set, "/b".to_string());
    assert_eq!(set, strings(&["/a", "/b", "/c"]));
    insert_path(&mut set, "/b".to_string());
    assert_eq!(set, strings(&["/a", "/b", "/c"]));
    insert_path(&mut set, "/".to_string());
    insert_path(&mut set, "/d".to_string());
    assert_eq!(set, strings(&["/", "/a", "/b", "/c", "/d"]));
}

#[test]
fn contains_path_matches_exactly() {
    let set = strings(&["/home", "/usr"]);
    assert!(contains_path(&set, "/home"));
    assert!(contains_path(&set, "/usr"));
    assert!(!contains_path(&set, "/home2"));
    assert!(!contains_path(&set, "/home/"));
    assert!(!contains_path(&strings(&[]), "/home"));
}

#[test]
fn protected_set_falls_back_to_the_defaults() {
    assert_eq!(protected_set(&strings(&[])), default_paths());
}

#[test]
fn protected_set_of_a_contribution() {
    assert_eq!(protected_set(&strings(&["/home"])), strings(&["/home"]));
    assert_eq!(protected_set(&strings(&["/tmp", "/home", "/tmp"])), strings(&["/home", "/tmp"]));
}
