//! Decisions behind the interface's commands that act on the system:
//! killing a launched application's session, saving an exported
//! configuration, and reporting a failed launch.

use crate::detect::{trim_chars, trim_ws};
use crate::text::{chars_of, decimal, push_decimal, string_from_chars};
use vstd::prelude::*;

verus! {

/// The `kill` target for the session named in `ps -o sid=` output: the
/// negated session id, or nothing when the output names none.
pub open spec fn session_kill_target(ps_output: Seq<char>) -> Option<Seq<char>> {
    let sid = trim_ws(ps_output);
    if sid.len() == 0 {
        None
    } else {
        Some("-"@ + sid)
    }
}

/// The `kill` target for the session named in `ps -o sid=` output.
pub fn session_kill_arg(ps_output: &str) -> (r: Option<String>)
    ensures
        match r {
            Some(t) => session_kill_target(ps_output@) == Some(t@),
            None => session_kill_target(ps_output@) is None,
        },
{
    let cs = chars_of(ps_output);
    let sid = trim_chars(&cs);
    if sid.len() == 0 {
        None
    } else {
        let mut r = "-".to_owned();
        let s = string_from_chars(sid.as_slice());
        r.append(s.as_str());
        Some(r)
    }
}

/// `/home/<user>/Downloads`.
pub open spec fn downloads_dir(user: Seq<char>) -> Seq<char> {
    "/home/"@ + user + "/Downloads"@
}

/// `/home/<user>`.
pub open spec fn user_home(user: Seq<char>) -> Seq<char> {
    "/home/"@ + user
}

/// The invoking user's download and home directories.
pub fn user_dirs(user: &str) -> (r: (String, String))
    ensures
        r.0@ == downloads_dir(user@),
        r.1@ == user_home(user@),
{
    let mut home = "/home/".to_owned();
    home.append(user);
    let mut downloads = home.clone();
    downloads.append("/Downloads");
    (downloads, home)
}

/// Where an exported configuration is saved: the invoking user's download
/// directory when it exists, else their home directory when it exists,
/// else the default directory.
pub fn choose_save_dir(default_dir: String, sudo_user: Option<&str>, downloads_exists: bool, home_exists: bool) -> (r: String)
    ensures
        r@ == match sudo_user {
            Some(u) => if downloads_exists {
                downloads_dir(u@)
            } else if home_exists {
                user_home(u@)
            } else {
                default_dir@
            },
            None => default_dir@,
        },
{
    match sudo_user {
        Some(u) => {
            let (downloads, home) = user_dirs(u);
            if downloads_exists {
                downloads
            } else if home_exists {
                home
            } else {
                default_dir
            }
        },
        None => default_dir,
    }
}

/// The file name of a configuration exported at time `stamp`.
pub fn config_file_name(stamp: &str) -> (r: String)
    ensures
        r@ == "dnsflow-config-"@ + stamp@ + ".json"@,
{
    let mut r = "dnsflow-config-".to_owned();
    r.append(stamp);
    r.append(".json");
    r
}

/// The `chown` owner argument `uid:gid`.
pub fn owner_arg(uid: u32, gid: u32) -> (r: String)
    ensures
        r@ == decimal(uid as nat) + ":"@ + decimal(gid as nat),
{
    let mut r = String::new();
    push_decimal(&mut r, uid as u64);
    r.append(":");
    push_decimal(&mut r, gid as u64);
    r
}

/// The error reported when an application cannot be launched.
pub fn launch_failure(app_path: &str, err: &str) -> (r: String)
    ensures
        r@ == "Failed to launch '"@ + app_path@ + "': "@ + err@,
{
    let mut r = "Failed to launch '".to_owned();
    r.append(app_path);
    r.append("': ");
    r.append(err);
    r
}

} // verus!
