//! Reading the system's DNS servers from `/etc/resolv.conf` or from the
//! status that `resolvectl` prints.

use crate::text::{chars_of, has_substring, string_from_chars, string_views};
use vstd::prelude::*;

verus! {

/// Unicode `White_Space`, which `char::is_whitespace` tests.
pub open spec fn is_ws(c: char) -> bool {
    let u = c as u32;
    ||| 9 <= u <= 13
    ||| u == 32
    ||| u == 0x85
    ||| u == 0xA0
    ||| u == 0x1680
    ||| 0x2000 <= u <= 0x200A
    ||| u == 0x2028
    ||| u == 0x2029
    ||| u == 0x202F
    ||| u == 0x205F
    ||| u == 0x3000
}

/// `char::is_whitespace`.
pub fn is_whitespace(c: char) -> (r: bool)
    ensures
        r == is_ws(c),
{
    let u = c as u32;
    (9 <= u && u <= 13) || u == 32 || u == 0x85 || u == 0xA0 || u == 0x1680 || (0x2000 <= u && u
        <= 0x200A) || u == 0x2028 || u == 0x2029 || u == 0x202F || u == 0x205F || u == 0x3000
}

/// The pieces of `s` between occurrences of `sep` (`str::split` with a
/// character): always at least one, possibly empty.
pub open spec fn pieces(s: Seq<char>, sep: char) -> Seq<Seq<char>>
    decreases s.len(),
{
    if s.len() == 0 {
        seq![Seq::empty()]
    } else {
        let p = pieces(s.drop_last(), sep);
        if s.last() == sep {
            p.push(Seq::empty())
        } else {
            p.update(p.len() - 1, p.last().push(s.last()))
        }
    }
}

proof fn lemma_pieces_nonempty(s: Seq<char>, sep: char)
    ensures
        pieces(s, sep).len() >= 1,
    decreases s.len(),
{
    if s.len() > 0 {
        lemma_pieces_nonempty(s.drop_last(), sep);
    }
}

/// Splits `s` at each `sep`.
pub fn split_pieces(s: &Vec<char>, sep: char) -> (r: Vec<Vec<char>>)
    ensures
        r@.map_values(|p: Vec<char>| p@) == pieces(s@, sep),
{
    let mut done: Vec<Vec<char>> = Vec::new();
    let mut cur: Vec<char> = Vec::new();
    let mut i: usize = 0;
    while i < s.len()
        invariant
            i <= s@.len(),
            done@.map_values(|p: Vec<char>| p@).push(cur@) == pieces(s@.take(i as int), sep),
        decreases s@.len() - i,
    {
        assert(s@.take(i + 1).drop_last() =~= s@.take(i as int));
        proof {
            lemma_pieces_nonempty(s@.take(i as int), sep);
        }
        let ghost before = done@.map_values(|p: Vec<char>| p@);
        let ghost cur0 = cur@;
        if s[i] == sep {
            let finished = cur;
            cur = Vec::new();
            done.push(finished);
            assert(done@.map_values(|p: Vec<char>| p@) =~= before.push(cur0));
            assert(done@.map_values(|p: Vec<char>| p@).push(cur@) =~= pieces(
                s@.take(i + 1),
                sep,
            ));
        } else {
            cur.push(s[i]);
            assert(done@.map_values(|p: Vec<char>| p@).push(cur@) =~= pieces(
                s@.take(i + 1),
                sep,
            ));
        }
        i = i + 1;
    }
    assert(s@.take(s@.len() as int) =~= s@);
    let ghost before = done@.map_values(|p: Vec<char>| p@);
    done.push(cur);
    assert(done@.map_values(|p: Vec<char>| p@) =~= before.push(cur@));
    done
}

/// The runs of non-whitespace in `s`, as (words finished, word in progress).
pub open spec fn words_acc(s: Seq<char>) -> (Seq<Seq<char>>, Seq<char>)
    decreases s.len(),
{
    if s.len() == 0 {
        (Seq::empty(), Seq::empty())
    } else {
        let (d, c) = words_acc(s.drop_last());
        if is_ws(s.last()) {
            if c.len() > 0 {
                (d.push(c), Seq::empty())
            } else {
                (d, Seq::empty())
            }
        } else {
            (d, c.push(s.last()))
        }
    }
}

/// The words of `s` (`str::split_whitespace`).
pub open spec fn words(s: Seq<char>) -> Seq<Seq<char>> {
    let (d, c) = words_acc(s);
    if c.len() > 0 {
        d.push(c)
    } else {
        d
    }
}

/// The words of `s`.
pub fn split_words(s: &Vec<char>) -> (r: Vec<Vec<char>>)
    ensures
        r@.map_values(|p: Vec<char>| p@) == words(s@),
{
    let mut done: Vec<Vec<char>> = Vec::new();
    let mut cur: Vec<char> = Vec::new();
    let mut i: usize = 0;
    while i < s.len()
        invariant
            i <= s@.len(),
            (done@.map_values(|p: Vec<char>| p@), cur@) == words_acc(s@.take(i as int)),
        decreases s@.len() - i,
    {
        assert(s@.take(i + 1).drop_last() =~= s@.take(i as int));
        let ghost before = done@.map_values(|p: Vec<char>| p@);
        let ghost cur0 = cur@;
        if is_whitespace(s[i]) {
            if cur.len() > 0 {
                let finished = cur;
                cur = Vec::new();
                done.push(finished);
                assert(done@.map_values(|p: Vec<char>| p@) =~= before.push(cur0));
            } else {
                cur = Vec::new();
            }
            assert(cur@ =~= Seq::<char>::empty());
        } else {
            cur.push(s[i]);
        }
        i = i + 1;
    }
    assert(s@.take(s@.len() as int) =~= s@);
    if cur.len() > 0 {
        let ghost before = done@.map_values(|p: Vec<char>| p@);
        let ghost cur0 = cur@;
        done.push(cur);
        assert(done@.map_values(|p: Vec<char>| p@) =~= before.push(cur0));
    }
    done
}

/// `s` without trailing whitespace.
pub open spec fn trim_end_ws(s: Seq<char>) -> Seq<char>
    decreases s.len(),
{
    if s.len() > 0 && is_ws(s.last()) {
        trim_end_ws(s.drop_last())
    } else {
        s
    }
}

/// `s` without leading whitespace.
pub open spec fn trim_start_ws(s: Seq<char>) -> Seq<char>
    decreases s.len(),
{
    if s.len() > 0 && is_ws(s[0]) {
        trim_start_ws(s.drop_first())
    } else {
        s
    }
}

/// `s` without leading or trailing whitespace (`str::trim`).
pub open spec fn trim_ws(s: Seq<char>) -> Seq<char> {
    trim_start_ws(trim_end_ws(s))
}

/// `str::trim` on characters.
pub fn trim_chars(s: &Vec<char>) -> (r: Vec<char>)
    ensures
        r@ == trim_ws(s@),
{
    let mut end: usize = s.len();
    assert(s@.subrange(0, end as int) =~= s@);
    while end > 0 && is_whitespace(s[end - 1])
        invariant
            end <= s@.len(),
            trim_end_ws(s@) == trim_end_ws(s@.subrange(0, end as int)),
        decreases end,
    {
        assert(s@.subrange(0, end as int).drop_last() =~= s@.subrange(0, end - 1));
        end = end - 1;
    }
    let ghost e = s@.subrange(0, end as int);
    assert(trim_end_ws(e) == e);
    let mut start: usize = 0;
    assert(e.subrange(0, end as int) =~= e);
    while start < end && is_whitespace(s[start])
        invariant
            start <= end,
            end <= s@.len(),
            e == s@.subrange(0, end as int),
            trim_start_ws(e) == trim_start_ws(e.subrange(start as int, end as int)),
        decreases end - start,
    {
        assert(e.subrange(start as int, end as int).drop_first() =~= e.subrange(start + 1, end as int));
        start = start + 1;
    }
    let mut r: Vec<char> = Vec::new();
    let mut i: usize = start;
    while i < end
        invariant
            start <= i <= end,
            end <= s@.len(),
            r@ == s@.subrange(start as int, i as int),
        decreases end - i,
    {
        r.push(s[i]);
        assert(r@ =~= s@.subrange(start as int, i + 1));
        i = i + 1;
    }
    assert(r@ =~= e.subrange(start as int, end as int));
    r
}

/// Whether `s` begins with `p`.
pub open spec fn begins_with(s: Seq<char>, p: Seq<char>) -> bool {
    p.len() <= s.len() && s.subrange(0, p.len() as int) == p
}

/// The server a `/etc/resolv.conf` line names: the second word of a
/// trimmed line that begins with `nameserver`.
pub open spec fn nameserver_of(line: Seq<char>) -> Seq<Seq<char>> {
    let t = trim_ws(line);
    if begins_with(t, "nameserver"@) && words(t).len() > 1 {
        seq![words(t)[1]]
    } else {
        Seq::empty()
    }
}

/// The servers a `resolvectl status` line names: the words after the first
/// `:` of a line that mentions `DNS Servers:`, up to the next `:`.
pub open spec fn resolvectl_servers_of(line: Seq<char>) -> Seq<Seq<char>> {
    if has_substring(line, "DNS Servers:"@) && pieces(line, ':').len() > 1 {
        words(pieces(line, ':')[1])
    } else {
        Seq::empty()
    }
}

/// The servers named by the lines of a `resolv.conf`, in order.
pub open spec fn resolv_conf_servers(lines: Seq<Seq<char>>) -> Seq<Seq<char>>
    decreases lines.len(),
{
    if lines.len() == 0 {
        Seq::empty()
    } else {
        resolv_conf_servers(lines.drop_last()) + nameserver_of(lines.last())
    }
}

/// The servers named by the lines of `resolvectl status`, in order.
pub open spec fn resolvectl_servers(lines: Seq<Seq<char>>) -> Seq<Seq<char>>
    decreases lines.len(),
{
    if lines.len() == 0 {
        Seq::empty()
    } else {
        resolvectl_servers(lines.drop_last()) + resolvectl_servers_of(lines.last())
    }
}

fn begins_with_exec(s: &Vec<char>, p: &str) -> (r: bool)
    ensures
        r == begins_with(s@, p@),
{
    let pc = chars_of(p);
    if pc.len() > s.len() {
        return false;
    }
    let mut i: usize = 0;
    while i < pc.len()
        invariant
            i <= pc@.len(),
            pc@ == p@,
            pc@.len() <= s@.len(),
            forall|k: int| 0 <= k < i ==> s@[k] == pc@[k],
        decreases pc@.len() - i,
    {
        if s[i] != pc[i] {
            assert(s@.subrange(0, pc@.len() as int)[i as int] != pc@[i as int]);
            return false;
        }
        i = i + 1;
    }
    assert(s@.subrange(0, pc@.len() as int) =~= pc@);
    true
}

/// The DNS servers a `resolv.conf` names, in order.
pub fn nameservers_from_resolv_conf(content: &str) -> (r: Vec<String>)
    ensures
        string_views(r@) == resolv_conf_servers(pieces(content@, '\n')),
{
    let cs = chars_of(content);
    let lines = split_pieces(&cs, '\n');
    let ghost lv = lines@.map_values(|p: Vec<char>| p@);
    let mut out: Vec<String> = Vec::new();
    let mut i: usize = 0;
    while i < lines.len()
        invariant
            i <= lines@.len(),
            lv == lines@.map_values(|p: Vec<char>| p@),
            string_views(out@) == resolv_conf_servers(lv.take(i as int)),
        decreases lines@.len() - i,
    {
        assert(lv.take(i + 1).drop_last() =~= lv.take(i as int));
        let ghost before = string_views(out@);
        let t = trim_chars(&lines[i]);
        if begins_with_exec(&t, "nameserver") {
            let ws = split_words(&t);
            if ws.len() > 1 {
                out.push(string_from_chars(ws[1].as_slice()));
            }
        }
        proof {
            reveal_strlit("nameserver");
        }
        assert(string_views(out@) =~= before + nameserver_of(lv[i as int]));
        i = i + 1;
    }
    assert(lv.take(lines@.len() as int) =~= lv);
    out
}

/// The DNS servers `resolvectl status` lists, in order.
pub fn nameservers_from_resolvectl(stdout: &str) -> (r: Vec<String>)
    ensures
        string_views(r@) == resolvectl_servers(pieces(stdout@, '\n')),
{
    let cs = chars_of(stdout);
    let lines = split_pieces(&cs, '\n');
    let ghost lv = lines@.map_values(|p: Vec<char>| p@);
    let mut out: Vec<String> = Vec::new();
    let mut i: usize = 0;
    while i < lines.len()
        invariant
            i <= lines@.len(),
            lv == lines@.map_values(|p: Vec<char>| p@),
            string_views(out@) == resolvectl_servers(lv.take(i as int)),
        decreases lines@.len() - i,
    {
        assert(lv.take(i + 1).drop_last() =~= lv.take(i as int));
        let ghost before = string_views(out@);
        let line = string_from_chars(lines[i].as_slice());
        if crate::text::contains(line.as_str(), "DNS Servers:") {
            let parts = split_pieces(&lines[i], ':');
            if parts.len() > 1 {
                let ws = split_words(&parts[1]);
                let ghost wv = ws@.map_values(|p: Vec<char>| p@);
                let mut k: usize = 0;
                let ghost mid = string_views(out@);
                while k < ws.len()
                    invariant
                        k <= ws@.len(),
                        wv == ws@.map_values(|p: Vec<char>| p@),
                        string_views(out@) == mid + wv.take(k as int),
                    decreases ws@.len() - k,
                {
                    let t = string_from_chars(ws[k].as_slice());
                    assert(t@ == wv[k as int]);
                    let ghost o = out@;
                    out.push(t);
                    assert(string_views(out@) =~= string_views(o).push(wv[k as int]));
                    assert(mid + wv.take(k + 1) =~= (mid + wv.take(k as int)).push(wv[k as int]));
                    k = k + 1;
                }
                assert(wv.take(ws@.len() as int) =~= wv);
            }
        }
        assert(string_views(out@) =~= before + resolvectl_servers_of(lv[i as int]));
        i = i + 1;
    }
    assert(lv.take(lines@.len() as int) =~= lv);
    out
}

/// The system's DNS servers: those `/etc/resolv.conf` names, or, when it
/// names none, those `resolvectl status` lists (none without its output).
pub fn system_dns_servers(from_resolv_conf: Vec<String>, resolvectl_stdout: Option<&str>) -> (r:
    Vec<String>)
    ensures
        from_resolv_conf@.len() > 0 ==> r@ == from_resolv_conf@,
        from_resolv_conf@.len() == 0 ==> string_views(r@) == match resolvectl_stdout {
            Some(out) => resolvectl_servers(pieces(out@, '\n')),
            None => Seq::<Seq<char>>::empty(),
        },
{
    if from_resolv_conf.len() > 0 {
        return from_resolv_conf;
    }
    match resolvectl_stdout {
        Some(out) => nameservers_from_resolvectl(out),
        None => {
            let r: Vec<String> = Vec::new();
            assert(string_views(r@) =~= Seq::<Seq<char>>::empty());
            r
        },
    }
}

} // verus!
