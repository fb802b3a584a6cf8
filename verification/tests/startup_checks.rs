use safe_rm::startup;
use safe_rm::startup::{choose_rm_binary, exit_code, judge_real_rm, select_rm_binary, Callable};

/// Where Linux shows a process its own program.
const OWN_PROGRAM: &str = "/proc/self/exe";

fn ok(s: &str) -> Result<String, String> {
    Ok(s.to_string())
}

fn err(s: &str) -> Result<String, String> {
    Err(s.to_string())
}

fn some(s: &str) -> Option<String> {
    Some(s.to_string())
}

#[test]
fn ensure_real_rm_is_callable() {
    assert_eq!(
        startup::ensure_real_rm_binary_is_callable(startup::REAL_RM, &ok(OWN_PROGRAM)),
        Callable::Yes
    );
}

#[test]
fn the_program_itself_is_not_callable() {
    assert_eq!(
        startup::ensure_real_rm_binary_is_callable(OWN_PROGRAM, &ok(OWN_PROGRAM)),
        Callable::Recursive
    );
}

#[test]
fn an_unresolved_program_is_not_checked() {
    assert!(matches!(
        startup::ensure_real_rm_binary_is_callable("/non/existent/rm", &ok("/bin/sh")),
        Callable::Unchecked(_)
    ));
    assert_eq!(
        startup::ensure_real_rm_binary_is_callable("/bin/sh", &err("no such program")),
        Callable::Unchecked("no such program".to_string())
    );
    assert!(matches!(
        startup::ensure_real_rm_binary_is_callable("/bin/sh", &ok("/non/existent/self")),
        Callable::Unchecked(_)
    ));
}

#[test]
fn judge_real_rm_compares_the_resolved_paths() {
    assert_eq!(judge_real_rm(&ok("/bin/rm"), &ok("/usr/bin/safe-rm")), Callable::Yes);
    assert_eq!(judge_real_rm(&ok("/bin/rm"), &ok("/bin/rm")), Callable::Recursive);
    assert_eq!(
        judge_real_rm(&err("not found"), &ok("/bin/rm")),
        Callable::Unchecked("not found".to_string())
    );
    assert_eq!(
        judge_real_rm(&ok("/bin/rm"), &err("unknown")),
        Callable::Unchecked("unknown".to_string())
    );
    assert_eq!(
        judge_real_rm(&err("first"), &err("second")),
        Callable::Unchecked("first".to_string())
    );
}

#[test]
fn exit_code_follows_the_program_that_deletes() {
    assert_eq!(exit_code(Some(Some(0))), 0);
    assert_eq!(exit_code(Some(Some(1))), 1);
    assert_eq!(exit_code(Some(Some(2))), 2);
    assert_eq!(exit_code(Some(Some(-1))), -1);
    assert_eq!(exit_code(Some(None)), 1);
    assert_eq!(exit_code(None), 1);
}

#[test]
fn choose_rm_binary_prefers_the_configured_name() {
    assert_eq!(choose_rm_binary(&some("/bin/rm.real"), &some("/opt/rm")), "/bin/rm.real");
    assert_eq!(choose_rm_binary(&some(""), &some("/opt/rm")), "/opt/rm");
    assert_eq!(choose_rm_binary(&None, &some("/opt/rm")), "/opt/rm");
    assert_eq!(choose_rm_binary(&None, &some("")), "/bin/rm");
    assert_eq!(choose_rm_binary(&some(""), &None), "/bin/rm");
    assert_eq!(choose_rm_binary(&None, &None), "/bin/rm");
}

#[test]
fn select_rm_binary_normalizes_the_name_from_the_environment() {
    assert_eq!(select_rm_binary(&None, &some("/usr/../usr/.")), "/usr");
    assert_eq!(select_rm_binary(&some("/usr/../bin"), &some("/usr")), "/usr/../bin");
    assert_eq!(select_rm_binary(&None, &some("/non/existent/rm")), "/non/existent/rm");
    assert_eq!(select_rm_binary(&None, &None), "/bin/rm");
}

#[test]
fn the_configuration_files_have_their_fixed_names() {
    assert_eq!(startup::GLOBAL_CONFIG, "/etc/safe-rm.conf");
    assert_eq!(startup::LOCAL_GLOBAL_CONFIG, "/usr/local/etc/safe-rm.conf");
    assert_eq!(startup::USER_CONFIG, ".config/safe-rm");
    assert_eq!(startup::LEGACY_USER_CONFIG, ".safe-rm");
    assert_eq!(startup::REAL_RM, "/bin/rm");
}
