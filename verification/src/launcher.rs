//! Launching an application under a rule: the browser flags and policy
//! locations that keep browsers on the system resolver, and the shell
//! command that starts the application as the invoking user in its own
//! mount namespace.

use crate::proxy::PROXY_RESOLV_CONF;
use crate::shim::{join_path, path_join};
use crate::text::{
    chars_of, contains, decimal, has_substring, parse_u32, parse_u32_spec, push_char, push_decimal,
    push_signed_decimal, signed_decimal, starts_with, string_from_chars, string_views,
};
use vstd::prelude::*;

verus! {

/// What `str::to_lowercase` gives for a string: its Unicode lowercase form.
pub uninterp spec fn lowercase(s: Seq<char>) -> Seq<char>;

/// `str::to_lowercase`. The result is named as a function of the text.
#[verifier::external_body]
fn to_lowercase(s: &str) -> (r: String)
    ensures
        r@ == lowercase(s@),
{
    s.to_lowercase()
}

/// The part of a path after its last `/` (the whole path when it has none).
pub open spec fn basename(s: Seq<char>) -> Seq<char>
    decreases s.len(),
{
    if s.len() == 0 {
        s
    } else if s.last() == '/' {
        Seq::empty()
    } else {
        basename(s.drop_last()).push(s.last())
    }
}

/// The part of `path` after its last `/`.
pub fn path_basename(path: &str) -> (r: String)
    ensures
        r@ == basename(path@),
{
    let cs = chars_of(path);
    let mut cur: Vec<char> = Vec::new();
    let mut i: usize = 0;
    while i < cs.len()
        invariant
            i <= cs@.len(),
            cs@ == path@,
            cur@ == basename(cs@.take(i as int)),
        decreases cs@.len() - i,
    {
        assert(cs@.take(i + 1).drop_last() =~= cs@.take(i as int));
        if cs[i] == '/' {
            cur = Vec::new();
            assert(cur@ =~= basename(cs@.take(i + 1)));
        } else {
            cur.push(cs[i]);
        }
        i = i + 1;
    }
    assert(cs@.take(cs@.len() as int) =~= cs@);
    string_from_chars(cur.as_slice())
}

/// The lowercased file name of an executable path, by which browsers are
/// recognised.
pub open spec fn program_name(app_path: Seq<char>) -> Seq<char> {
    basename(lowercase(app_path))
}

/// The lowercased file name of `app_path`.
pub fn program_name_of(app_path: &str) -> (r: String)
    ensures
        r@ == program_name(app_path@),
{
    let lower = to_lowercase(app_path);
    path_basename(lower.as_str())
}

/// Chromium and the browsers built on it.
pub open spec fn chromium_family(name: Seq<char>) -> bool {
    ||| has_substring(name, "chrome"@)
    ||| has_substring(name, "chromium"@)
    ||| has_substring(name, "brave"@)
    ||| has_substring(name, "edge"@)
    ||| has_substring(name, "vivaldi"@)
    ||| has_substring(name, "opera"@)
}

/// Firefox and the browsers built on it.
pub open spec fn firefox_family(name: Seq<char>) -> bool {
    ||| has_substring(name, "firefox"@)
    ||| has_substring(name, "librewolf"@)
    ||| has_substring(name, "waterfox"@)
    ||| has_substring(name, "palemoon"@)
}

/// The flag that turns off Chromium's own resolver and DNS over HTTPS.
pub const CHROMIUM_NO_ASYNC_DNS: &'static str = "--disable-features=AsyncDns,DnsOverHttps,SecureDns";

/// The flag that makes Chromium prefer IPv4 answers.
pub const CHROMIUM_IPV4_FIRST: &'static str = "--dns-result-order=ipv4first";

fn is_chromium_family(name: &str) -> (r: bool)
    ensures
        r == chromium_family(name@),
{
    contains(name, "chrome") || contains(name, "chromium") || contains(name, "brave") || contains(
        name,
        "edge",
    ) || contains(name, "vivaldi") || contains(name, "opera")
}

fn is_firefox_family(name: &str) -> (r: bool)
    ensures
        r == firefox_family(name@),
{
    contains(name, "firefox") || contains(name, "librewolf") || contains(name, "waterfox")
        || contains(name, "palemoon")
}

/// The extra arguments that keep a browser on the system resolver: the
/// two Chromium flags for a Chromium-family browser, none otherwise
/// (Firefox is handled by policy).
pub open spec fn dns_args(app_path: Seq<char>) -> Seq<Seq<char>> {
    if chromium_family(program_name(app_path)) {
        seq![CHROMIUM_NO_ASYNC_DNS@, CHROMIUM_IPV4_FIRST@]
    } else {
        Seq::empty()
    }
}

/// The extra arguments a browser at `app_path` is started with.
pub fn browser_dns_args(app_path: &str) -> (r: Vec<&'static str>)
    ensures
        r@.map_values(|a: &'static str| a@) == dns_args(app_path@),
{
    let name = program_name_of(app_path);
    if is_chromium_family(name.as_str()) {
        let r = vec![CHROMIUM_NO_ASYNC_DNS, CHROMIUM_IPV4_FIRST];
        assert(r@.map_values(|a: &'static str| a@) =~= dns_args(app_path@));
        r
    } else {
        let r: Vec<&'static str> = Vec::new();
        assert(r@.map_values(|a: &'static str| a@) =~= dns_args(app_path@));
        r
    }
}

/// Chromium-family browsers get both flags: every program whose lowercased
/// file name contains "chrome", "chromium", "brave", "edge", "vivaldi" or
/// "opera" is started with exactly the two flags that turn off its own
/// resolver and make it prefer IPv4.
pub proof fn lemma_chromium_browsers_get_both_flags(
    app_path: Seq<char>,
    pre: Seq<char>,
    brand: Seq<char>,
    post: Seq<char>,
)
    requires
        program_name(app_path) == pre + brand + post,
        brand == "chrome"@ || brand == "chromium"@ || brand == "brave"@ || brand == "edge"@ || brand
            == "vivaldi"@ || brand == "opera"@,
    ensures
        dns_args(app_path) == seq![
            "--disable-features=AsyncDns,DnsOverHttps,SecureDns"@,
            "--dns-result-order=ipv4first"@,
        ],
{
    let name = program_name(app_path);
    assert(name.subrange(pre.len() as int, (pre.len() + brand.len()) as int) =~= brand);
    assert(has_substring(name, brand));
}

/// `[x]` when `b`, else nothing.
pub open spec fn when(b: bool, x: Seq<char>) -> Seq<Seq<char>> {
    if b {
        seq![x]
    } else {
        Seq::empty()
    }
}

/// Where the DNS-over-HTTPS policy is written for a browser with program
/// name `name`: one policy directory per Firefox variant the name mentions,
/// and both Firefox directories when a Firefox-family name mentions none.
pub open spec fn policy_dirs(name: Seq<char>) -> Seq<Seq<char>> {
    let esr = has_substring(name, "firefox-esr"@);
    let found = when(esr, "/etc/firefox-esr/policies"@) + when(
        has_substring(name, "firefox"@) && !esr,
        "/etc/firefox/policies"@,
    ) + when(has_substring(name, "librewolf"@), "/etc/librewolf/policies"@) + when(
        has_substring(name, "waterfox"@),
        "/etc/waterfox/policies"@,
    ) + when(has_substring(name, "palemoon"@), "/etc/palemoon/policies"@);
    if !firefox_family(name) {
        Seq::empty()
    } else if found.len() == 0 {
        seq!["/etc/firefox/policies"@, "/etc/firefox-esr/policies"@]
    } else {
        found
    }
}

fn push_when(v: &mut Vec<String>, b: bool, x: &str)
    ensures
        final(v)@.map_values(|s: String| s@) == old(v)@.map_values(|s: String| s@) + when(b, x@),
{
    let ghost before = v@;
    if b {
        v.push(x.to_owned());
        assert(v@.map_values(|s: String| s@) =~= before.map_values(|s: String| s@) + when(b, x@));
    } else {
        assert(v@.map_values(|s: String| s@) =~= before.map_values(|s: String| s@) + when(b, x@));
    }
}

/// The policy directories for the browser at `app_path`; none for a
/// browser outside the Firefox family.
pub fn firefox_policy_dirs(app_path: &str) -> (r: Vec<String>)
    ensures
        r@.map_values(|s: String| s@) == policy_dirs(program_name(app_path@)),
{
    let name = program_name_of(app_path);
    let n = name.as_str();
    let mut dirs: Vec<String> = Vec::new();
    if !is_firefox_family(n) {
        assert(dirs@.map_values(|s: String| s@) =~= policy_dirs(program_name(app_path@)));
        return dirs;
    }
    let esr = contains(n, "firefox-esr");
    push_when(&mut dirs, esr, "/etc/firefox-esr/policies");
    let ff = contains(n, "firefox");
    push_when(&mut dirs, ff && !esr, "/etc/firefox/policies");
    let lw = contains(n, "librewolf");
    push_when(&mut dirs, lw, "/etc/librewolf/policies");
    let wf = contains(n, "waterfox");
    push_when(&mut dirs, wf, "/etc/waterfox/policies");
    let pm = contains(n, "palemoon");
    push_when(&mut dirs, pm, "/etc/palemoon/policies");
    assert(Seq::<Seq<char>>::empty() + when(esr, "/etc/firefox-esr/policies"@) =~= when(
        esr,
        "/etc/firefox-esr/policies"@,
    ));
    if dirs.len() == 0 {
        dirs.push("/etc/firefox/policies".to_owned());
        dirs.push("/etc/firefox-esr/policies".to_owned());
        assert(dirs@.map_values(|s: String| s@) =~= seq![
            "/etc/firefox/policies"@,
            "/etc/firefox-esr/policies"@,
        ]);
    }
    dirs
}

/// `s` with each `'` written as `'\''`, for use inside single quotes.
pub open spec fn escape_quotes(s: Seq<char>) -> Seq<char>
    decreases s.len(),
{
    if s.len() == 0 {
        s
    } else {
        escape_quotes(s.drop_last()) + if s.last() == '\'' {
            "'\\''"@
        } else {
            seq![s.last()]
        }
    }
}

/// `s` as one single-quoted shell word.
pub open spec fn single_quoted(s: Seq<char>) -> Seq<char> {
    "'"@ + escape_quotes(s) + "'"@
}

/// Quotes `s` as one shell word.
pub fn shell_quote(s: &str) -> (r: String)
    ensures
        r@ == single_quoted(s@),
{
    let cs = chars_of(s);
    let mut r = "'".to_owned();
    let mut i: usize = 0;
    while i < cs.len()
        invariant
            i <= cs@.len(),
            cs@ == s@,
            r@ == "'"@ + escape_quotes(cs@.take(i as int)),
        decreases cs@.len() - i,
    {
        assert(cs@.take(i + 1).drop_last() =~= cs@.take(i as int));
        if cs[i] == '\'' {
            r.append("'\\''");
        } else {
            push_char(&mut r, cs[i]);
        }
        assert(r@ =~= "'"@ + escape_quotes(cs@.take(i + 1)));
        i = i + 1;
    }
    assert(cs@.take(cs@.len() as int) =~= cs@);
    r.append("'");
    r
}

/// How the shell reads a word made of single-quoted runs and
/// backslash-escaped characters, starting inside quotes or not: the text it
/// stands for, or nothing when the word is unterminated or holds anything
/// else outside quotes.
pub open spec fn shell_read(w: Seq<char>, quoted: bool) -> Option<Seq<char>>
    decreases w.len(),
{
    if w.len() == 0 {
        if quoted {
            None
        } else {
            Some(Seq::empty())
        }
    } else if quoted {
        if w[0] == '\'' {
            shell_read(w.drop_first(), false)
        } else {
            match shell_read(w.drop_first(), true) {
                Some(r) => Some(seq![w[0]] + r),
                None => None,
            }
        }
    } else if w[0] == '\'' {
        shell_read(w.drop_first(), true)
    } else if w[0] == '\\' && w.len() >= 2 {
        match shell_read(w.subrange(2, w.len() as int), false) {
            Some(r) => Some(seq![w[1]] + r),
            None => None,
        }
    } else {
        None
    }
}

/// One character as written inside single quotes.
pub open spec fn escape_char(c: char) -> Seq<char> {
    if c == '\'' {
        "'\\''"@
    } else {
        seq![c]
    }
}

proof fn lemma_escape_front(c: char, t: Seq<char>)
    ensures
        escape_quotes(seq![c] + t) == escape_char(c) + escape_quotes(t),
    decreases t.len(),
{
    let w = seq![c] + t;
    if t.len() == 0 {
        assert(w.drop_last() =~= Seq::<char>::empty());
        assert(w.last() == c);
        assert(escape_quotes(Seq::<char>::empty()) =~= Seq::<char>::empty());
        assert(escape_quotes(w) =~= escape_char(c) + escape_quotes(t));
    } else {
        lemma_escape_front(c, t.drop_last());
        assert(w.drop_last() =~= seq![c] + t.drop_last());
        assert(w.last() == t.last());
        assert(escape_quotes(w) =~= escape_char(c) + escape_quotes(t));
    }
}

proof fn lemma_read_escaped(s: Seq<char>, rest: Seq<char>)
    ensures
        shell_read(escape_quotes(s) + rest, true) == match shell_read(rest, true) {
            Some(r) => Some(s + r),
            None => None::<Seq<char>>,
        },
    decreases s.len(),
{
    if s.len() == 0 {
        assert(escape_quotes(s) =~= Seq::<char>::empty());
        assert(escape_quotes(s) + rest =~= rest);
        match shell_read(rest, true) {
            Some(r) => {
                assert(s + r =~= r);
            },
            None => {},
        }
    } else {
        let c = s[0];
        let t = s.drop_first();
        assert(s =~= seq![c] + t);
        lemma_escape_front(c, t);
        lemma_read_escaped(t, rest);
        let x = escape_quotes(t) + rest;
        let w = escape_quotes(s) + rest;
        assert(w =~= escape_char(c) + x);
        reveal_strlit("'\\''");
        if c == '\'' {
            assert(w[0] == '\'');
            assert(w.drop_first() =~= seq!['\\', '\'', '\''] + x);
            let w1 = w.drop_first();
            assert(w1[0] == '\\' && w1[1] == '\'');
            assert(w1.subrange(2, w1.len() as int) =~= seq!['\''] + x);
            let w2 = w1.subrange(2, w1.len() as int);
            assert(w2.drop_first() =~= x);
            assert(w2[0] == '\'');
            assert(shell_read(w2, false) == shell_read(x, true));
            assert(shell_read(w1, false) == match shell_read(w2, false) {
                Some(r) => Some(seq![w1[1]] + r),
                None => None::<Seq<char>>,
            });
            assert(shell_read(w, true) == shell_read(w1, false));
        } else {
            assert(w[0] == c);
            assert(w.drop_first() =~= x);
            assert(shell_read(w, true) == match shell_read(x, true) {
                Some(r) => Some(seq![c] + r),
                None => None::<Seq<char>>,
            });
        }
        match shell_read(rest, true) {
            Some(r) => {
                assert(seq![c] + (t + r) =~= s + r);
            },
            None => {},
        }
    }
}

/// A quoted word reads back, in the shell, as exactly the text that was
/// quoted, whatever characters it holds.
pub proof fn lemma_shell_quote_reads_back(s: Seq<char>)
    ensures
        shell_read(single_quoted(s), false) == Some(s),
{
    reveal_strlit("'");
    let w = single_quoted(s);
    let tail = seq!['\''];
    assert(w =~= seq!['\''] + (escape_quotes(s) + tail));
    assert(w.drop_first() =~= escape_quotes(s) + tail);
    lemma_read_escaped(s, tail);
    assert(tail.drop_first() =~= Seq::<char>::empty());
    assert(tail[0] == '\'');
    assert(shell_read(Seq::<char>::empty(), false) == Some(Seq::<char>::empty()));
    assert(shell_read(tail, true) == shell_read(tail.drop_first(), false));
    assert(shell_read(tail, true) == Some(Seq::<char>::empty()));
    assert(s + Seq::<char>::empty() =~= s);
}

/// What the launcher knows of the invoking user's session.
#[derive(Debug, Clone)]
pub struct LaunchContext {
    /// The invoking user's id.
    pub uid: u32,
    /// The invoking user's name.
    pub user: String,
    /// The resolver shim library, when it was found.
    pub shim_path: Option<String>,
    pub display: Option<String>,
    pub wayland_display: Option<String>,
    pub xauthority: Option<String>,
    /// The file the shim reads its settings from.
    pub rules_path: String,
}

pub open spec fn home_dir(user: Seq<char>) -> Seq<char> {
    "/home/"@ + user
}

pub open spec fn runtime_dir(uid: u32) -> Seq<char> {
    "/run/user/"@ + decimal(uid as nat)
}

/// `[key + value]` when there is a value, else nothing.
pub open spec fn opt_var(key: Seq<char>, v: Option<String>) -> Seq<Seq<char>> {
    match v {
        Some(x) => seq![key + x@],
        None => Seq::empty(),
    }
}

/// The X authority file the application is given: the user's own unless
/// the caller's lies under `/root/`.
pub open spec fn xauthority_var(user: Seq<char>, xauthority: Option<String>) -> Seq<char> {
    match xauthority {
        Some(x) => if "/root/"@.len() <= x@.len() && x@.subrange(0, 6) == "/root/"@ {
            "XAUTHORITY="@ + home_dir(user) + "/.Xauthority"@
        } else {
            "XAUTHORITY="@ + x@
        },
        None => "XAUTHORITY="@ + home_dir(user) + "/.Xauthority"@,
    }
}

/// The environment an application is started with, in order.
pub open spec fn launch_env(c: LaunchContext, rule_id: Option<i64>) -> Seq<Seq<char>> {
    let user = c.user@;
    seq![
        "HOME="@ + home_dir(user),
        "USER="@ + user,
        "LOGNAME="@ + user,
        "XDG_RUNTIME_DIR="@ + runtime_dir(c.uid),
        "DBUS_SESSION_BUS_ADDRESS=unix:path="@ + runtime_dir(c.uid) + "/bus"@,
    ] + opt_var("LD_PRELOAD="@, c.shim_path) + opt_var("DISPLAY="@, c.display) + opt_var(
        "WAYLAND_DISPLAY="@,
        c.wayland_display,
    ) + seq![xauthority_var(user, c.xauthority), "DNSFLOW_RULES="@ + c.rules_path@] + match rule_id {
        Some(id) => seq!["DNSFLOW_RULE_ID="@ + signed_decimal(id as int)],
        None => Seq::empty(),
    }
}

fn concat(a: &str, b: &str) -> (r: String)
    ensures
        r@ == a@ + b@,
{
    let mut r = a.to_owned();
    r.append(b);
    r
}

fn push_opt_var(v: &mut Vec<String>, key: &str, x: &Option<String>)
    ensures
        string_views(final(v)@) == string_views(old(v)@) + opt_var(key@, *x),
{
    let ghost before = v@;
    match x {
        Some(val) => {
            v.push(concat(key, val.as_str()));
        },
        None => {},
    }
    assert(string_views(v@) =~= string_views(before) + opt_var(key@, *x));
}

/// The environment an application is started with under the user session
/// `c` and, when given, rule `rule_id`.
pub fn launch_env_parts(c: &LaunchContext, rule_id: Option<i64>) -> (r: Vec<String>)
    ensures
        string_views(r@) == launch_env(*c, rule_id),
{
    let user = c.user.as_str();
    let home = concat("/home/", user);
    let mut runtime = "/run/user/".to_owned();
    push_decimal(&mut runtime, c.uid as u64);
    let mut v: Vec<String> = Vec::new();
    v.push(concat("HOME=", home.as_str()));
    v.push(concat("USER=", user));
    v.push(concat("LOGNAME=", user));
    v.push(concat("XDG_RUNTIME_DIR=", runtime.as_str()));
    let mut bus = concat("DBUS_SESSION_BUS_ADDRESS=unix:path=", runtime.as_str());
    bus.append("/bus");
    v.push(bus);
    let ghost first = string_views(v@);
    assert(first =~= seq![
        "HOME="@ + home_dir(c.user@),
        "USER="@ + c.user@,
        "LOGNAME="@ + c.user@,
        "XDG_RUNTIME_DIR="@ + runtime_dir(c.uid),
        "DBUS_SESSION_BUS_ADDRESS=unix:path="@ + runtime_dir(c.uid) + "/bus"@,
    ]);
    push_opt_var(&mut v, "LD_PRELOAD=", &c.shim_path);
    push_opt_var(&mut v, "DISPLAY=", &c.display);
    push_opt_var(&mut v, "WAYLAND_DISPLAY=", &c.wayland_display);
    let ghost mid = string_views(v@);
    let xauth = match &c.xauthority {
        Some(x) => {
            if starts_with(x.as_str(), "/root/") {
                let mut t = concat("XAUTHORITY=", home.as_str());
                t.append("/.Xauthority");
                t
            } else {
                concat("XAUTHORITY=", x.as_str())
            }
        },
        None => {
            let mut t = concat("XAUTHORITY=", home.as_str());
            t.append("/.Xauthority");
            t
        },
    };
    proof {
        reveal_strlit("/root/");
    }
    assert(xauth@ == xauthority_var(c.user@, c.xauthority));
    v.push(xauth);
    v.push(concat("DNSFLOW_RULES=", c.rules_path.as_str()));
    let ghost mid2 = string_views(v@);
    assert(mid2 =~= mid + seq![xauthority_var(c.user@, c.xauthority), "DNSFLOW_RULES="@ + c.rules_path@]);
    match rule_id {
        Some(id) => {
            let mut t = "DNSFLOW_RULE_ID=".to_owned();
            push_signed_decimal(&mut t, id);
            v.push(t);
            assert(string_views(v@) =~= mid2 + seq!["DNSFLOW_RULE_ID="@ + signed_decimal(id as int)]);
        },
        None => {
            assert(string_views(v@) =~= mid2 + Seq::<Seq<char>>::empty());
        },
    }
    v
}

/// The words of `parts`, each preceded by a space.
pub open spec fn spaced(parts: Seq<Seq<char>>) -> Seq<char>
    decreases parts.len(),
{
    if parts.len() == 0 {
        Seq::empty()
    } else {
        spaced(parts.drop_last()) + " "@ + parts.last()
    }
}

/// The words of `parts`, each single-quoted as it is and preceded by a space.
pub open spec fn spaced_quoted(parts: Seq<Seq<char>>) -> Seq<char>
    decreases parts.len(),
{
    if parts.len() == 0 {
        Seq::empty()
    } else {
        spaced_quoted(parts.drop_last()) + " '"@ + parts.last() + "'"@
    }
}

/// The command that starts the application as `user` with environment
/// `env`, followed by the browser's extra arguments.
pub open spec fn user_command(user: Seq<char>, env: Seq<Seq<char>>, app_path: Seq<char>) -> Seq<
    char,
> {
    "exec setsid sudo -u "@ + user + " env"@ + spaced(env) + " "@ + single_quoted(app_path)
        + spaced_quoted(dns_args(app_path))
}

/// The command run in the new mount namespace: make mounts private, put the
/// proxy's resolver configuration over `/etc/resolv.conf`, then run the
/// user command.
pub open spec fn namespace_command(user_cmd: Seq<char>) -> Seq<char> {
    "mount --make-rprivate / && mount --bind "@ + PROXY_RESOLV_CONF@ + " /etc/resolv.conf && "@
        + user_cmd
}

/// The shell command that launches `app_path` for the session `c`, under
/// rule `rule_id` when one is given.
pub fn launch_command(c: &LaunchContext, app_path: &str, rule_id: Option<i64>) -> (r: String)
    ensures
        r@ == namespace_command(user_command(c.user@, launch_env(*c, rule_id), app_path@)),
{
    let env = launch_env_parts(c, rule_id);
    let mut cmd = concat("exec setsid sudo -u ", c.user.as_str());
    cmd.append(" env");
    let ghost head = cmd@;
    let mut i: usize = 0;
    while i < env.len()
        invariant
            i <= env@.len(),
            cmd@ == head + spaced(string_views(env@).take(i as int)),
        decreases env@.len() - i,
    {
        assert(string_views(env@).take(i + 1).drop_last() =~= string_views(env@).take(i as int));
        cmd.append(" ");
        cmd.append(env[i].as_str());
        assert(cmd@ =~= head + spaced(string_views(env@).take(i + 1)));
        i = i + 1;
    }
    assert(string_views(env@).take(env@.len() as int) =~= string_views(env@));
    cmd.append(" ");
    let quoted = shell_quote(app_path);
    cmd.append(quoted.as_str());
    let ghost mid = cmd@;
    let args = browser_dns_args(app_path);
    let ghost av = args@.map_values(|a: &'static str| a@);
    let mut k: usize = 0;
    while k < args.len()
        invariant
            k <= args@.len(),
            av == args@.map_values(|a: &'static str| a@),
            cmd@ == mid + spaced_quoted(av.take(k as int)),
        decreases args@.len() - k,
    {
        assert(av.take(k + 1).drop_last() =~= av.take(k as int));
        cmd.append(" '");
        cmd.append(args[k]);
        cmd.append("'");
        assert(cmd@ =~= mid + spaced_quoted(av.take(k + 1)));
        k = k + 1;
    }
    assert(av.take(args@.len() as int) =~= av);
    let mut r = "mount --make-rprivate / && mount --bind ".to_owned();
    r.append(PROXY_RESOLV_CONF);
    r.append(" /etc/resolv.conf && ");
    r.append(cmd.as_str());
    assert(r@ =~= namespace_command(user_command(c.user@, launch_env(*c, rule_id), app_path@)));
    r
}

/// The invoking user behind `sudo`: the ids and name that `sudo` exports,
/// each required.
pub open spec fn sudo_identity_spec(
    sudo_uid: Option<Seq<char>>,
    sudo_gid: Option<Seq<char>>,
    sudo_user: Option<Seq<char>>,
) -> Result<(u32, Seq<char>), Seq<char>> {
    let uid = match sudo_uid {
        Some(t) => parse_u32_spec(t),
        None => None,
    };
    let gid = match sudo_gid {
        Some(t) => parse_u32_spec(t),
        None => None,
    };
    match uid {
        None => Err("SUDO_UID not set — must run via sudo"@),
        Some(u) => match gid {
            None => Err("SUDO_GID not set — must run via sudo"@),
            Some(_) => match sudo_user {
                None => Err("SUDO_USER not set — must run via sudo"@),
                Some(name) => Ok((u, name)),
            },
        },
    }
}

/// Reads the invoking user from the values of `SUDO_UID`, `SUDO_GID` and
/// `SUDO_USER`.
pub fn sudo_identity(sudo_uid: Option<&str>, sudo_gid: Option<&str>, sudo_user: Option<&str>) -> (r:
    Result<(u32, String), String>)
    ensures
        match (r, sudo_identity_spec(
            match sudo_uid {
                Some(t) => Some(t@),
                None => None,
            },
            match sudo_gid {
                Some(t) => Some(t@),
                None => None,
            },
            match sudo_user {
                Some(t) => Some(t@),
                None => None,
            },
        )) {
            (Ok((u, n)), Ok((su, sn))) => u == su && n@ == sn,
            (Err(e), Err(se)) => e@ == se,
            _ => false,
        },
{
    let uid = match sudo_uid {
        Some(t) => parse_u32(t),
        None => None,
    };
    let gid = match sudo_gid {
        Some(t) => parse_u32(t),
        None => None,
    };
    match uid {
        None => Err("SUDO_UID not set — must run via sudo".to_owned()),
        Some(u) => match gid {
            None => Err("SUDO_GID not set — must run via sudo".to_owned()),
            Some(_) => match sudo_user {
                None => Err("SUDO_USER not set — must run via sudo".to_owned()),
                Some(name) => Ok((u, name.to_owned())),
            },
        },
    }
}

/// Where the shim library is looked for, in order: beside the executable,
/// in the installed library directories, then around the working directory
/// and its build outputs.
pub open spec fn shim_candidate_paths(exe_dir: Seq<char>, current_dir: Seq<char>) -> Seq<Seq<char>> {
    seq![
        path_join(exe_dir, "libdnsflow_shim.so"@),
        path_join(exe_dir, "../lib/dnsflow/libdnsflow_shim.so"@),
        "/usr/lib/dnsflow/libdnsflow_shim.so"@,
        "/usr/local/lib/dnsflow/libdnsflow_shim.so"@,
        path_join(current_dir, "libdnsflow_shim.so"@),
        path_join(current_dir, "../libdnsflow_shim.so"@),
        path_join(current_dir, "target/debug/libdnsflow_shim.so"@),
        path_join(current_dir, "target/release/libdnsflow_shim.so"@),
        path_join(current_dir, "../target/debug/libdnsflow_shim.so"@),
        path_join(current_dir, "../target/release/libdnsflow_shim.so"@),
        path_join(current_dir, "../../libdnsflow_shim.so"@),
    ]
}

/// The places the shim library is looked for, given the executable's
/// directory and the working directory (either may be empty when unknown).
pub fn shim_candidates(exe_dir: &str, current_dir: &str) -> (r: Vec<String>)
    ensures
        string_views(r@) == shim_candidate_paths(exe_dir@, current_dir@),
{
    let mut r: Vec<String> = Vec::new();
    r.push(join_path(exe_dir, "libdnsflow_shim.so"));
    r.push(join_path(exe_dir, "../lib/dnsflow/libdnsflow_shim.so"));
    r.push("/usr/lib/dnsflow/libdnsflow_shim.so".to_owned());
    r.push("/usr/local/lib/dnsflow/libdnsflow_shim.so".to_owned());
    r.push(join_path(current_dir, "libdnsflow_shim.so"));
    r.push(join_path(current_dir, "../libdnsflow_shim.so"));
    r.push(join_path(current_dir, "target/debug/libdnsflow_shim.so"));
    r.push(join_path(current_dir, "target/release/libdnsflow_shim.so"));
    r.push(join_path(current_dir, "../target/debug/libdnsflow_shim.so"));
    r.push(join_path(current_dir, "../target/release/libdnsflow_shim.so"));
    r.push(join_path(current_dir, "../../libdnsflow_shim.so"));
    assert(string_views(r@) =~= shim_candidate_paths(exe_dir@, current_dir@));
    r
}

} // verus!
