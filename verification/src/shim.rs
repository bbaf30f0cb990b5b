//! The resolver shim preloaded into launched applications: where it finds
//! its settings, what it reads from them, and which lookups it takes over.

use crate::proxy::{format_socket_addr, proxy_addr, socket_addr_text, PROXY_LISTEN_IP, PROXY_LISTEN_PORT};
use crate::text::str_eq;
use vstd::prelude::*;

verus! {

/// The file name of the shim's settings.
pub const RULES_FILE_NAME: &'static str = "dnsflow_rules.json";

/// The settings file used when no runtime directory is known.
pub const DEFAULT_RULES_PATH: &'static str = "/tmp/dnsflow_rules.json";

/// The id of the query the shim sends.
pub const SHIM_QUERY_ID: u16 = 0x1234;

/// `dir` joined with a relative file name, as `Path::join` does on Unix:
/// a separator is added unless `dir` is empty or already ends with one.
pub open spec fn path_join(dir: Seq<char>, file: Seq<char>) -> Seq<char> {
    if dir.len() == 0 || dir.last() == '/' {
        dir + file
    } else {
        dir + "/"@ + file
    }
}

/// Joins a directory and a relative file name.
pub fn join_path(dir: &str, file: &str) -> (r: String)
    ensures
        r@ == path_join(dir@, file@),
{
    let n = dir.unicode_len();
    let mut r = dir.to_owned();
    if n > 0 && dir.get_char(n - 1) != '/' {
        r.append("/");
    }
    r.append(file);
    r
}

/// Where the application writes the shim's settings: in the runtime
/// directory when one is known, else under `/tmp`.
pub fn shim_rules_path(xdg_runtime_dir: Option<&str>) -> (r: String)
    ensures
        r@ == match xdg_runtime_dir {
            Some(d) => path_join(d@, RULES_FILE_NAME@),
            None => DEFAULT_RULES_PATH@,
        },
{
    match xdg_runtime_dir {
        Some(d) => join_path(d, RULES_FILE_NAME),
        None => DEFAULT_RULES_PATH.to_owned(),
    }
}

/// Where the shim looks for its settings: the path it was given, else the
/// runtime directory's settings file, else the one under `/tmp`.
pub fn rules_file_path(dnsflow_rules: Option<&str>, xdg_runtime_dir: Option<&str>) -> (r: String)
    ensures
        r@ == match dnsflow_rules {
            Some(p) => p@,
            None => match xdg_runtime_dir {
                Some(d) => d@ + "/"@ + RULES_FILE_NAME@,
                None => DEFAULT_RULES_PATH@,
            },
        },
{
    match dnsflow_rules {
        Some(p) => p.to_owned(),
        None => match xdg_runtime_dir {
            Some(d) => {
                let mut r = d.to_owned();
                r.append("/");
                r.append(RULES_FILE_NAME);
                r
            },
            None => DEFAULT_RULES_PATH.to_owned(),
        },
    }
}

/// What serde_json reads from a JSON document: when it parses, the member
/// `bool_key` when it is a boolean, the member `num_key` when it is a
/// non-negative integer and the member `str_key` when it is a string.
pub uninterp spec fn json_fields(
    text: Seq<char>,
    bool_key: Seq<char>,
    num_key: Seq<char>,
    str_key: Seq<char>,
) -> Option<(Option<bool>, Option<u64>, Option<Seq<char>>)>;

pub open spec fn opt_view(s: Option<String>) -> Option<Seq<char>> {
    match s {
        Some(t) => Some(t@),
        None => None,
    }
}

/// `serde_json::from_str` into a `Value`, then the `bool_key` member's
/// `as_bool`, the `num_key` member's `as_u64` and the `str_key` member's
/// `as_str`. The result is named as a function of the four strings.
#[verifier::external_body]
fn read_json_fields(text: &str, bool_key: &str, num_key: &str, str_key: &str) -> (r: Option<
    (Option<bool>, Option<u64>, Option<String>),
>)
    ensures
        match r {
            Some((b, n, a)) => json_fields(text@, bool_key@, num_key@, str_key@) == Some(
                (b, n, opt_view(a)),
            ),
            None => json_fields(text@, bool_key@, num_key@, str_key@) is None,
        },
{
    match serde_json::from_str::<serde_json::Value>(text) {
        Ok(v) => Some((v[bool_key].as_bool(), v[num_key].as_u64(), v[str_key].as_str().map(str::to_owned))),
        Err(_) => None,
    }
}

/// The members of the shim's settings, as read from the file's text.
pub open spec fn settings_fields(t: Seq<char>) -> Option<(Option<bool>, Option<u64>, Option<Seq<char>>)> {
    json_fields(t, "intercept"@, "proxy_port"@, "proxy_addr"@)
}

/// The host the shim reaches the proxy on when only its port is given.
pub const SHIM_PROXY_IP: &'static str = "127.0.0.1";

/// Whether the shim takes lookups over, given the settings file's text
/// (`None` when it cannot be read): only when it parses and says so.
pub open spec fn intercept_setting(content: Option<Seq<char>>) -> bool {
    match content {
        Some(t) => match settings_fields(t) {
            Some((Some(b), _, _)) => b,
            _ => false,
        },
        None => false,
    }
}

/// The address the shim sends its queries to: the settings' `proxy_addr`
/// when it is a string; else localhost on the settings' `proxy_port` when
/// it is a port number; else the proxy's default address `127.0.0.53:53`.
pub open spec fn addr_setting(content: Option<Seq<char>>) -> Seq<char> {
    match content {
        Some(t) => match settings_fields(t) {
            Some((_, _, Some(a))) => a,
            Some((_, Some(p), None)) => if p <= 65535 {
                socket_addr_text(SHIM_PROXY_IP@, p as u16)
            } else {
                socket_addr_text(PROXY_LISTEN_IP@, PROXY_LISTEN_PORT)
            },
            _ => socket_addr_text(PROXY_LISTEN_IP@, PROXY_LISTEN_PORT),
        },
        None => socket_addr_text(PROXY_LISTEN_IP@, PROXY_LISTEN_PORT),
    }
}

/// Whether the shim takes lookups over.
pub fn should_intercept(content: Option<&str>) -> (r: bool)
    ensures
        r == intercept_setting(
            match content {
                Some(t) => Some(t@),
                None => None,
            },
        ),
{
    match content {
        Some(t) => match read_json_fields(t, "intercept", "proxy_port", "proxy_addr") {
            Some((Some(b), _, _)) => b,
            _ => false,
        },
        None => false,
    }
}

/// The address the shim sends its queries to.
pub fn get_proxy_addr(content: Option<&str>) -> (r: String)
    ensures
        r@ == addr_setting(
            match content {
                Some(t) => Some(t@),
                None => None,
            },
        ),
{
    match content {
        Some(t) => match read_json_fields(t, "intercept", "proxy_port", "proxy_addr") {
            Some((_, _, Some(a))) => a,
            Some((_, Some(p), None)) => if p <= 65535 {
                format_socket_addr(SHIM_PROXY_IP, p as u16)
            } else {
                proxy_addr()
            },
            _ => proxy_addr(),
        },
        None => proxy_addr(),
    }
}

/// Names the shim always leaves to the system resolver.
pub open spec fn is_local_name(host: Seq<char>) -> bool {
    host == "localhost"@ || host == "127.0.0.1"@ || host == "::1"@
}

/// Whether a lookup of `host` goes to the proxy: not for local names, and
/// only when the settings say to intercept.
pub fn takes_over(host: &str, intercept: bool) -> (r: bool)
    ensures
        r == (!is_local_name(host@) && intercept),
{
    let local = str_eq(host, "localhost") || str_eq(host, "127.0.0.1") || str_eq(host, "::1");
    !local && intercept
}

} // verus!
