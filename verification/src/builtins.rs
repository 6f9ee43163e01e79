//! The builtin-command registry and the texts the shell prints for
//! builtins and diagnostics, plus the `~` expansion that `cd` applies
//! to its target.

use vstd::prelude::*;
use vstd::string::*;
use crate::text::str_eq;

verus! {

/// The fixed registry of builtin command names.
pub open spec fn is_builtin_name(s: Seq<char>) -> bool {
    s == "echo"@ || s == "exit"@ || s == "type"@ || s == "pwd"@ || s == "cd"@
}

/// Whether `name` is a builtin command.
pub fn is_builtin(name: &str) -> (r: bool)
    ensures
        r == is_builtin_name(name@),
{
    str_eq(name, "echo") || str_eq(name, "exit") || str_eq(name, "type") || str_eq(name, "pwd")
        || str_eq(name, "cd")
}

/// The answer `type <name>` prints: builtins take precedence over
/// anything on the search path; otherwise the resolved executable is
/// named, or the command reported as not found.
pub fn type_message(name: &str, resolved: Option<&String>) -> (r: String)
    ensures
        is_builtin_name(name@) ==> r@ == name@ + " is a shell builtin"@,
        !is_builtin_name(name@) && resolved is Some ==> r@ == name@ + " is "@
            + resolved->Some_0@,
        !is_builtin_name(name@) && resolved is None ==> r@ == name@ + ": not found"@,
{
    let mut r = String::from_str(name);
    if is_builtin(name) {
        r.append(" is a shell builtin");
    } else {
        match resolved {
            Some(p) => {
                r.append(" is ");
                r.append(p.as_str());
            },
            None => {
                r.append(": not found");
            },
        }
    }
    r
}

/// The diagnostic printed when a command line resolves to nothing; it
/// echoes the whole trimmed line, not only the command name.
pub fn not_found_message(line: &str) -> (r: String)
    ensures
        r@ == line@ + ": command not found"@,
{
    let mut r = String::from_str(line);
    r.append(": command not found");
    r
}

/// The diagnostic `cd` prints when its target cannot be entered; the
/// working directory is then left unchanged.
pub fn cd_error_message(target: &str) -> (r: String)
    ensures
        r@ == "cd: "@ + target@ + ": No such file or directory"@,
{
    let mut r = String::from_str("cd: ");
    r.append(target);
    r.append(": No such file or directory");
    r
}

/// Whether a `cd` target starts with a `~` that stands for the home
/// directory: either `~` alone or a path beginning with `~/`.
pub open spec fn tilde_applies(p: Seq<char>) -> bool {
    p.len() >= 1 && p[0] == '~' && (p.len() == 1 || p[1] == '/')
}

/// The home directory to substitute: the given one, or the root
/// directory when none is set.
pub open spec fn home_or_root(home: Option<&str>) -> Seq<char> {
    match home {
        Some(h) => h@,
        None => "/"@,
    }
}

/// Replaces a leading `~` or `~/` by the home directory; any other
/// target is returned unchanged.
pub fn expand_tilde(path: &str, home: Option<&str>) -> (r: String)
    ensures
        tilde_applies(path@) ==> r@ == home_or_root(home) + path@.skip(1),
        !tilde_applies(path@) ==> r@ == path@,
{
    let n = path.unicode_len();
    if n >= 1 && path.get_char(0) == '~' && (n == 1 || path.get_char(1) == '/') {
        let mut r = match home {
            Some(h) => String::from_str(h),
            None => String::from_str("/"),
        };
        let rest = path.substring_char(1, n);
        r.append(rest);
        proof {
            assert(path@.subrange(1, n as int) =~= path@.skip(1));
        }
        r
    } else {
        String::from_str(path)
    }
}

} // verus!
