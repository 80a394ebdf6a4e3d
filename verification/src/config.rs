//! Spawn-time parameter resolution: which shell to launch and which working
//! directory to start it in. The host supplies what only it can know (the
//! environment's shell, the user's home directory, the platform); these
//! functions fix the fallback rules.

use vstd::prelude::*;

verus! {

/// The shell a new session launches: the platform shell on Windows,
/// otherwise the environment's choice, otherwise a fixed default.
pub fn default_shell(env_shell: Option<String>, windows: bool) -> (r: String)
    ensures
        windows ==> r@ == "powershell.exe"@,
        !windows && env_shell is Some ==> r@ == env_shell->Some_0@,
        !windows && env_shell is None ==> r@ == "/bin/bash"@,
{
    if windows {
        "powershell.exe".to_owned()
    } else {
        match env_shell {
            Some(s) => s,
            None => "/bin/bash".to_owned(),
        }
    }
}

/// The working directory a new session starts in: the caller's request,
/// else the user's home directory, else the current directory.
pub fn resolve_initial_cwd(requested: Option<String>, home: Option<String>) -> (r: String)
    ensures
        requested is Some ==> r@ == requested->Some_0@,
        requested is None && home is Some ==> r@ == home->Some_0@,
        requested is None && home is None ==> r@ == "."@,
{
    match requested {
        Some(c) => c,
        None => match home {
            Some(h) => h,
            None => ".".to_owned(),
        },
    }
}

} // verus!
