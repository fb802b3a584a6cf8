//! The decisions taken before any argument is looked at: which program does
//! the deleting, and whether it may be called at all.

use vstd::prelude::*;
use vstd::string::StringExecFns;
use crate::normalize::{is_normal_form_of, normalize_path};
use crate::pathops::{canonicalize, opt_text};
use crate::text::same_text;

verus! {

/// The program that deletes where nothing else is configured.
pub const REAL_RM: &'static str = "/bin/rm";

/// The first of the two global configuration files.
pub const GLOBAL_CONFIG: &'static str = "/etc/safe-rm.conf";

/// The second of the two global configuration files.
pub const LOCAL_GLOBAL_CONFIG: &'static str = "/usr/local/etc/safe-rm.conf";

/// The user's configuration file, under the home directory.
pub const USER_CONFIG: &'static str = ".config/safe-rm";

/// The user's configuration file under its former name.
pub const LEGACY_USER_CONFIG: &'static str = ".safe-rm";

/// The setting names a program: it is there and not empty.
pub open spec fn names_program(setting: Option<Seq<char>>) -> bool {
    setting matches Some(c) && c.len() > 0
}

/// The program to call, given the configured one and the one from the
/// environment in its canonical form. A configured name that is not empty
/// wins; then a name from the environment that is not empty; then `REAL_RM`.
pub open spec fn chosen_rm(configured: Option<Seq<char>>, from_env: Option<Seq<char>>) -> Seq<
    char,
> {
    if names_program(configured) {
        configured.unwrap()
    } else if names_program(from_env) {
        from_env.unwrap()
    } else {
        REAL_RM@
    }
}

/// Chooses the program to call.
pub fn choose_rm_binary(configured: &Option<String>, from_env: &Option<String>) -> (r: String)
    ensures
        r@ == chosen_rm(opt_text(*configured), opt_text(*from_env)),
{
    match configured {
        Some(c) => {
            if c.as_str().unicode_len() > 0 {
                return c.clone();
            }
        },
        None => {},
    }
    match from_env {
        Some(e) => {
            if e.as_str().unicode_len() > 0 {
                return e.clone();
            }
        },
        None => {},
    }
    String::from_str(REAL_RM)
}

/// Chooses the program to call, where the name from the environment is still
/// as it was given: it is brought into its canonical form first, unless a
/// configured name makes it irrelevant.
pub fn select_rm_binary(configured: &Option<String>, from_env: &Option<String>) -> (r: String)
    ensures
        names_program(opt_text(*configured)) ==> Some(r@) == opt_text(*configured),
        !names_program(opt_text(*configured)) && from_env is None ==> r@ == REAL_RM@,
        !names_program(opt_text(*configured)) ==> (from_env matches Some(e) ==> exists|
            normal: Seq<char>,
        |
            #[trigger] is_normal_form_of(normal, e@) && r@ == chosen_rm(None, Some(normal))),
{
    match configured {
        Some(c) => {
            if c.as_str().unicode_len() > 0 {
                return c.clone();
            }
        },
        None => {},
    }
    match from_env {
        Some(e) => {
            let normal = normalize_path(e.as_str());
            let ghost form = normal@;
            let r = choose_rm_binary(&None, &Some(normal));
            assert(is_normal_form_of(form, e@) && r@ == chosen_rm(None, Some(form)));
            r
        },
        None => choose_rm_binary(&None, &None),
    }
}

/// Whether the program that deletes may be called.
#[derive(Debug, PartialEq, Eq)]
pub enum Callable {
    /// It is another program than this one.
    Yes,
    /// It is this very program: calling it would never end.
    Recursive,
    /// One of the two programs could not be resolved, so nothing is known.
    /// The text is that of the error.
    Unchecked(String),
}

/// A `Callable`, with the text that it holds.
pub enum Verdict {
    Yes,
    Recursive,
    Unchecked(Seq<char>),
}

impl View for Callable {
    type V = Verdict;

    open spec fn view(&self) -> Verdict {
        match self {
            Callable::Yes => Verdict::Yes,
            Callable::Recursive => Verdict::Recursive,
            Callable::Unchecked(why) => Verdict::Unchecked(why@),
        }
    }
}

/// The texts held by a path or the error in its place.
pub open spec fn result_text(r: Result<String, String>) -> Result<Seq<char>, Seq<char>> {
    match r {
        Ok(p) => Ok(p@),
        Err(e) => Err(e@),
    }
}

/// The verdict, given the canonical paths of the program to call and of this
/// program, or the error for one that could not be resolved. The program to
/// call is looked at first, so that its error is the one reported.
pub open spec fn verdict(
    real_rm: Result<Seq<char>, Seq<char>>,
    current_exe: Result<Seq<char>, Seq<char>>,
) -> Verdict {
    match real_rm {
        Err(e) => Verdict::Unchecked(e),
        Ok(a) => match current_exe {
            Err(e) => Verdict::Unchecked(e),
            Ok(b) => if a == b {
                Verdict::Recursive
            } else {
                Verdict::Yes
            },
        },
    }
}

/// Judges from the two canonical paths whether the program may be called.
pub fn judge_real_rm(real_rm: &Result<String, String>, current_exe: &Result<String, String>) -> (r:
    Callable)
    ensures
        r@ == verdict(result_text(*real_rm), result_text(*current_exe)),
{
    match real_rm {
        Err(e) => Callable::Unchecked(e.clone()),
        Ok(a) => match current_exe {
            Err(e) => Callable::Unchecked(e.clone()),
            Ok(b) => if same_text(a.as_str(), b.as_str()) {
                Callable::Recursive
            } else {
                Callable::Yes
            },
        },
    }
}

/// Makes sure that the program to call is not this one. Both paths are
/// resolved against the file system; `current_exe` holds an error where this
/// program's own path is not known, and then nothing is checked. What the
/// verdict is for two paths that were resolved, `judge_real_rm` says.
pub fn ensure_real_rm_binary_is_callable(
    real_rm: &str,
    current_exe: &Result<String, String>,
) -> (r: Callable)
    ensures
        current_exe is Err ==> r@ is Unchecked,
{
    let target = canonicalize(real_rm);
    let own: Result<String, String> = match current_exe {
        Ok(exe) => canonicalize(exe.as_str()),
        Err(e) => Err(e.clone()),
    };
    judge_real_rm(&target, &own)
}

/// The code with which the program ends, given how the program that deletes
/// ended: its own code; 1 where it ended without one (the inner `None`); and 1
/// where it could not be started (the outer `None`).
pub open spec fn exit_code_of(spawned: Option<Option<i32>>) -> i32 {
    match spawned {
        Some(Some(code)) => code,
        _ => 1,
    }
}

/// Chooses the code with which the program ends.
pub fn exit_code(spawned: Option<Option<i32>>) -> (r: i32)
    ensures
        r == exit_code_of(spawned),
{
    match spawned {
        Some(Some(code)) => code,
        _ => 1,
    }
}

} // verus!
