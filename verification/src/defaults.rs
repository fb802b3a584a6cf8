//! The paths that are protected where no configuration names any: the
//! top-level system directories.

use vstd::prelude::*;
use crate::text::{lemma_lt_transitive, lex_lt, lex_lt_from, strictly_sorted, texts};

verus! {

/// The default protected paths, in ascending order.
pub open spec fn default_texts() -> Seq<Seq<char>> {
    seq![
        "/bin"@,
        "/boot"@,
        "/dev"@,
        "/etc"@,
        "/home"@,
        "/initrd"@,
        "/lib"@,
        "/lib32"@,
        "/lib64"@,
        "/proc"@,
        "/root"@,
        "/sbin"@,
        "/sys"@,
        "/usr"@,
        "/usr/bin"@,
        "/usr/include"@,
        "/usr/lib"@,
        "/usr/local"@,
        "/usr/local/bin"@,
        "/usr/local/include"@,
        "/usr/local/sbin"@,
        "/usr/local/share"@,
        "/usr/sbin"@,
        "/usr/share"@,
        "/usr/src"@,
        "/var"@,
    ]
}

/// A sequence in which each string comes before the next is strictly sorted.
pub proof fn lemma_adjacent_sorted(s: Seq<Seq<char>>)
    requires
        forall|i: int| 0 <= i < s.len() - 1 ==> lex_lt(#[trigger] s[i], s[i + 1]),
    ensures
        strictly_sorted(s),
{
    assert forall|i: int, j: int| 0 <= i < j < s.len() implies lex_lt(
        #[trigger] s[i],
        #[trigger] s[j],
    ) by {
        lemma_ascending_between(s, i, j);
    }
}

proof fn lemma_ascending_between(s: Seq<Seq<char>>, i: int, j: int)
    requires
        forall|k: int| 0 <= k < s.len() - 1 ==> lex_lt(#[trigger] s[k], s[k + 1]),
        0 <= i < j < s.len(),
    ensures
        lex_lt(s[i], s[j]),
    decreases j - i,
{
    if j > i + 1 {
        lemma_ascending_between(s, i, j - 1);
        assert(lex_lt(s[j - 1], s[j - 1 + 1]));
        lemma_lt_transitive(s[i], s[j - 1], s[j]);
    }
}

/// The default list is sorted and names nothing twice.
pub proof fn lemma_defaults_sorted()
    ensures
        strictly_sorted(default_texts()),
{
    assert(lex_lt("/bin"@, "/boot"@)) by {
        reveal_with_fuel(lex_lt_from, 20);
        reveal_strlit("/bin");
        reveal_strlit("/boot");
    }
    assert(lex_lt("/boot"@, "/dev"@)) by {
        reveal_with_fuel(lex_lt_from, 20);
        reveal_strlit("/boot");
        reveal_strlit("/dev");
    }
    assert(lex_lt("/dev"@, "/etc"@)) by {
        reveal_with_fuel(lex_lt_from, 20);
        reveal_strlit("/dev");
        reveal_strlit("/etc");
    }
    assert(lex_lt("/etc"@, "/home"@)) by {
        reveal_with_fuel(lex_lt_from, 20);
        reveal_strlit("/etc");
        reveal_strlit("/home");
    }
    assert(lex_lt("/home"@, "/initrd"@)) by {
        reveal_with_fuel(lex_lt_from, 20);
        reveal_strlit("/home");
        reveal_strlit("/initrd");
    }
    assert(lex_lt("/initrd"@, "/lib"@)) by {
        reveal_with_fuel(lex_lt_from, 20);
        reveal_strlit("/initrd");
        reveal_strlit("/lib");
    }
    assert(lex_lt("/lib"@, "/lib32"@)) by {
        reveal_with_fuel(lex_lt_from, 20);
        reveal_strlit("/lib");
        reveal_strlit("/lib32");
    }
    assert(lex_lt("/lib32"@, "/lib64"@)) by {
        reveal_with_fuel(lex_lt_from, 20);
        reveal_strlit("/lib32");
        reveal_strlit("/lib64");
    }
    assert(lex_lt("/lib64"@, "/proc"@)) by {
        reveal_with_fuel(lex_lt_from, 20);
        reveal_strlit("/lib64");
        reveal_strlit("/proc");
    }
    assert(lex_lt("/proc"@, "/root"@)) by {
        reveal_with_fuel(lex_lt_from, 20);
        reveal_strlit("/proc");
        reveal_strlit("/root");
    }
    assert(lex_lt("/root"@, "/sbin"@)) by {
        reveal_with_fuel(lex_lt_from, 20);
        reveal_strlit("/root");
        reveal_strlit("/sbin");
    }
    assert(lex_lt("/sbin"@, "/sys"@)) by {
        reveal_with_fuel(lex_lt_from, 20);
        reveal_strlit("/sbin");
        reveal_strlit("/sys");
    }
    assert(lex_lt("/sys"@, "/usr"@)) by {
        reveal_with_fuel(lex_lt_from, 20);
        reveal_strlit("/sys");
        reveal_strlit("/usr");
    }
    assert(lex_lt("/usr"@, "/usr/bin"@)) by {
        reveal_with_fuel(lex_lt_from, 20);
        reveal_strlit("/usr");
        reveal_strlit("/usr/bin");
    }
    assert(lex_lt("/usr/bin"@, "/usr/include"@)) by {
        reveal_with_fuel(lex_lt_from, 20);
        reveal_strlit("/usr/bin");
        reveal_strlit("/usr/include");
    }
    assert(lex_lt("/usr/include"@, "/usr/lib"@)) by {
        reveal_with_fuel(lex_lt_from, 20);
        reveal_strlit("/usr/include");
        reveal_strlit("/usr/lib");
    }
    assert(lex_lt("/usr/lib"@, "/usr/local"@)) by {
        reveal_with_fuel(lex_lt_from, 20);
        reveal_strlit("/usr/lib");
        reveal_strlit("/usr/local");
    }
    assert(lex_lt("/usr/local"@, "/usr/local/bin"@)) by {
        reveal_with_fuel(lex_lt_from, 20);
        reveal_strlit("/usr/local");
        reveal_strlit("/usr/local/bin");
    }
    assert(lex_lt("/usr/local/bin"@, "/usr/local/include"@)) by {
        reveal_with_fuel(lex_lt_from, 20);
        reveal_strlit("/usr/local/bin");
        reveal_strlit("/usr/local/include");
    }
    assert(lex_lt("/usr/local/include"@, "/usr/local/sbin"@)) by {
        reveal_with_fuel(lex_lt_from, 20);
        reveal_strlit("/usr/local/include");
        reveal_strlit("/usr/local/sbin");
    }
    assert(lex_lt("/usr/local/sbin"@, "/usr/local/share"@)) by {
        reveal_with_fuel(lex_lt_from, 20);
        reveal_strlit("/usr/local/sbin");
        reveal_strlit("/usr/local/share");
    }
    assert(lex_lt("/usr/local/share"@, "/usr/sbin"@)) by {
        reveal_with_fuel(lex_lt_from, 20);
        reveal_strlit("/usr/local/share");
        reveal_strlit("/usr/sbin");
    }
    assert(lex_lt("/usr/sbin"@, "/usr/share"@)) by {
        reveal_with_fuel(lex_lt_from, 20);
        reveal_strlit("/usr/sbin");
        reveal_strlit("/usr/share");
    }
    assert(lex_lt("/usr/share"@, "/usr/src"@)) by {
        reveal_with_fuel(lex_lt_from, 20);
        reveal_strlit("/usr/share");
        reveal_strlit("/usr/src");
    }
    assert(lex_lt("/usr/src"@, "/var"@)) by {
        reveal_with_fuel(lex_lt_from, 20);
        reveal_strlit("/usr/src");
        reveal_strlit("/var");
    }
    let d = default_texts();
    assert forall|i: int| 0 <= i < d.len() - 1 implies lex_lt(#[trigger] d[i], d[i + 1]) by {
    }
    lemma_adjacent_sorted(d);
}

/// The default protected paths.
pub fn default_paths() -> (r: Vec<String>)
    ensures
        texts(r@) == default_texts(),
{
    let mut v: Vec<String> = Vec::new();
    v.push(String::from_str("/bin"));
    v.push(String::from_str("/boot"));
    v.push(String::from_str("/dev"));
    v.push(String::from_str("/etc"));
    v.push(String::from_str("/home"));
    v.push(String::from_str("/initrd"));
    v.push(String::from_str("/lib"));
    v.push(String::from_str("/lib32"));
    v.push(String::from_str("/lib64"));
    v.push(String::from_str("/proc"));
    v.push(String::from_str("/root"));
    v.push(String::from_str("/sbin"));
    v.push(String::from_str("/sys"));
    v.push(String::from_str("/usr"));
    v.push(String::from_str("/usr/bin"));
    v.push(String::from_str("/usr/include"));
    v.push(String::from_str("/usr/lib"));
    v.push(String::from_str("/usr/local"));
    v.push(String::from_str("/usr/local/bin"));
    v.push(String::from_str("/usr/local/include"));
    v.push(String::from_str("/usr/local/sbin"));
    v.push(String::from_str("/usr/local/share"));
    v.push(String::from_str("/usr/sbin"));
    v.push(String::from_str("/usr/share"));
    v.push(String::from_str("/usr/src"));
    v.push(String::from_str("/var"));
    assert(texts(v@) =~= default_texts());
    v
}

} // verus!
