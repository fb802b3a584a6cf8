use safe_rm::text::{same_text, str_lt};

#[test]
fn str_lt_orders_by_first_difference() {
    assert!(str_lt("/bin", "/boot"));
    assert!(!str_lt("/boot", "/bin"));
    assert!(str_lt("/usr/lib", "/usr/local"));
    assert!(str_lt("/usr-x", "/usr/bin"));
}

#[test]
fn str_lt_puts_a_prefix_first() {
    assert!(str_lt("", "/"));
    assert!(str_lt("/lib", "/lib32"));
    assert!(!str_lt("/lib32", "/lib"));
}

#[test]
fn str_lt_is_strict() {
    assert!(!str_lt("/home", "/home"));
    assert!(!str_lt("", ""));
}

#[test]
fn str_lt_agrees_with_the_order_of_strings() {
    let samples = ["", "/", "/a", "/a/b", "/ab", "/b", "a", "é", "/é", "/e", "\u{fffd}"];
    for a in samples {
        for b in samples {
            assert_eq!(str_lt(a, b), a < b);
        }
    }
}

#[test]
fn same_text_compares_every_character() {
    assert!(same_text("/home", "/home"));
    assert!(!same_text("/home", "/home2"));
    assert!(!same_text("/home", "/hame"));
    assert!(same_text("", ""));
    assert!(!same_text("", "/"));
}
