//! The record the kernel probe emits for each DNS send, and its reading in
//! user space.

use crate::proxy::{format_ipv4, ipv4_text};
use crate::state;
use crate::text::push_char;
use vstd::prelude::*;

verus! {

/// A DNS send as the kernel probe records it (C layout).
#[derive(Clone, Copy)]
pub struct DnsEvent {
    pub pid: u32,
    pub tgid: u32,
    pub uid: u32,
    pub gid: u32,
    pub comm: [u8; 16],
    pub daddr: [u8; 4],
    pub dport: u16,
    pub is_dns: bool,
}

/// The size in bytes of the record in its C layout, padding included.
pub const EVENT_SIZE: usize = 40;

/// The port DNS is sent to.
pub const DNS_PORT: u16 = 53;

impl DnsEvent {
    /// The record the probe emits for the current task: the upper and lower
    /// halves of the pid/tgid and uid/gid words, the task's command name when
    /// it can be read (else zeros), no address, and port 53 marked as DNS.
    pub fn from_probe(pid_tgid: u64, uid_gid: u64, comm: Option<[u8; 16]>) -> (r: DnsEvent)
        ensures
            r.pid == pid_tgid / 0x1_0000_0000,
            r.tgid == pid_tgid % 0x1_0000_0000,
            r.uid == uid_gid / 0x1_0000_0000,
            r.gid == uid_gid % 0x1_0000_0000,
            r.comm@ == (match comm {
                Some(c) => c@,
                None => Seq::new(16, |i: int| 0u8),
            }),
            r.daddr@ == seq![0u8, 0u8, 0u8, 0u8],
            r.dport == DNS_PORT,
            r.is_dns,
    {
        assert((pid_tgid >> 32u64) as u32 == pid_tgid / 0x1_0000_0000) by (bit_vector);
        assert(pid_tgid as u32 == pid_tgid % 0x1_0000_0000) by (bit_vector);
        assert((uid_gid >> 32u64) as u32 == uid_gid / 0x1_0000_0000) by (bit_vector);
        assert(uid_gid as u32 == uid_gid % 0x1_0000_0000) by (bit_vector);
        let mut event = DnsEvent {
            pid: (pid_tgid >> 32u64) as u32,
            tgid: pid_tgid as u32,
            uid: (uid_gid >> 32u64) as u32,
            gid: uid_gid as u32,
            comm: [0u8; 16],
            daddr: [0u8; 4],
            dport: 0,
            is_dns: false,
        };
        match comm {
            Some(c) => {
                event.comm = c;
            },
            None => {},
        }
        event.is_dns = true;
        event.dport = DNS_PORT;
        assert(event.daddr@ =~= seq![0u8, 0u8, 0u8, 0u8]);
        assert(comm is None ==> event.comm@ =~= Seq::new(16, |i: int| 0u8));
        event
    }
}

/// A little-endian 32-bit value.
pub open spec fn le32(b: Seq<u8>, at: int) -> int {
    b[at] + b[at + 1] * 0x100 + b[at + 2] * 0x1_0000 + b[at + 3] * 0x100_0000
}

/// A little-endian 16-bit value.
pub open spec fn le16(b: Seq<u8>, at: int) -> int {
    b[at] + b[at + 1] * 0x100
}

/// The record laid out in `b`, which holds at least `EVENT_SIZE` bytes.
pub open spec fn event_at(b: Seq<u8>, e: DnsEvent) -> bool {
    &&& e.pid == le32(b, 0)
    &&& e.tgid == le32(b, 4)
    &&& e.uid == le32(b, 8)
    &&& e.gid == le32(b, 12)
    &&& e.comm@ == b.subrange(16, 32)
    &&& e.daddr@ == b.subrange(32, 36)
    &&& e.dport == le16(b, 36)
    &&& e.is_dns == (b[38] != 0)
}

fn read_le32(b: &[u8], at: usize) -> (r: u32)
    requires
        at + 4 <= b@.len(),
    ensures
        r == le32(b@, at as int),
{
    (b[at] as u32) + (b[at + 1] as u32) * 0x100 + (b[at + 2] as u32) * 0x1_0000 + (b[at + 3] as u32)
        * 0x100_0000
}

/// Reads one record from the bytes the probe delivered; a buffer shorter
/// than the record holds none.
pub fn decode_event(buf: &[u8]) -> (r: Option<DnsEvent>)
    ensures
        buf@.len() < EVENT_SIZE ==> r is None,
        buf@.len() >= EVENT_SIZE ==> (r matches Some(e) && event_at(buf@, e)),
{
    if buf.len() < EVENT_SIZE {
        return None;
    }
    let mut comm = [0u8; 16];
    let mut i: usize = 0;
    while i < 16
        invariant
            i <= 16,
            buf@.len() >= EVENT_SIZE,
            forall|k: int| 0 <= k < i ==> comm@[k] == buf@[16 + k],
        decreases 16 - i,
    {
        comm[i] = buf[16 + i];
        i = i + 1;
    }
    let daddr = [buf[32], buf[33], buf[34], buf[35]];
    let e = DnsEvent {
        pid: read_le32(buf, 0),
        tgid: read_le32(buf, 4),
        uid: read_le32(buf, 8),
        gid: read_le32(buf, 12),
        comm,
        daddr,
        dport: (buf[36] as u16) + (buf[37] as u16) * 0x100,
        is_dns: buf[38] != 0,
    };
    assert(e.comm@ =~= buf@.subrange(16, 32));
    assert(e.daddr@ =~= buf@.subrange(32, 36));
    Some(e)
}

/// What `String::from_utf8_lossy` makes of some bytes: the UTF-8 they hold,
/// each invalid sequence replaced by U+FFFD.
pub uninterp spec fn utf8_lossy(bytes: Seq<u8>) -> Seq<char>;

/// ASCII bytes read as text.
pub open spec fn ascii_chars(bytes: Seq<u8>) -> Seq<char> {
    bytes.map_values(|b: u8| b as char)
}

/// `String::from_utf8_lossy`, taken as an owned string. The text is named
/// as a function of the bytes; for bytes that are all ASCII, which UTF-8
/// reads one character per byte, it is those characters.
#[verifier::external_body]
fn lossy_text(bytes: &[u8]) -> (r: String)
    ensures
        r@ == utf8_lossy(bytes@),
        (forall|i: int| 0 <= i < bytes@.len() ==> #[trigger] bytes@[i] < 0x80) ==> r@ == ascii_chars(
            bytes@,
        ),
{
    String::from_utf8_lossy(bytes).into_owned()
}

/// `s` without its trailing NUL characters.
pub open spec fn trim_nuls(s: Seq<char>) -> Seq<char>
    decreases s.len(),
{
    if s.len() > 0 && s.last() == '\0' {
        trim_nuls(s.drop_last())
    } else {
        s
    }
}

/// Drops the trailing NUL characters of `s`.
pub fn trim_trailing_nuls(s: &str) -> (r: String)
    ensures
        r@ == trim_nuls(s@),
{
    let n = s.unicode_len();
    let mut end: usize = n;
    assert(s@.subrange(0, n as int) =~= s@);
    while end > 0 && s.get_char(end - 1) == '\0'
        invariant
            end <= n,
            n == s@.len(),
            trim_nuls(s@) == trim_nuls(s@.subrange(0, end as int)),
        decreases end,
    {
        assert(s@.subrange(0, end as int).drop_last() =~= s@.subrange(0, end - 1));
        end = end - 1;
    }
    assert(trim_nuls(s@.subrange(0, end as int)) == s@.subrange(0, end as int));
    let mut r = String::new();
    let mut i: usize = 0;
    while i < end
        invariant
            i <= end,
            end <= n,
            n == s@.len(),
            r@ == s@.subrange(0, i as int),
        decreases end - i,
    {
        push_char(&mut r, s.get_char(i));
        assert(r@ =~= s@.subrange(0, i + 1));
        i = i + 1;
    }
    r
}

/// The event as the interface shows it: the numbers widened, the command
/// name as text without trailing NULs, the address in dotted decimal.
pub fn event_from_raw(raw: &DnsEvent) -> (r: state::DnsEvent)
    ensures
        r.pid == raw.pid,
        r.tgid == raw.tgid,
        r.uid == raw.uid,
        r.gid == raw.gid,
        r.comm@ == trim_nuls(utf8_lossy(raw.comm@)),
        r.daddr@ == ipv4_text(raw.daddr),
        r.dport == raw.dport,
        r.is_dns == raw.is_dns,
{
    let text = lossy_text(raw.comm.as_slice());
    let comm = trim_trailing_nuls(text.as_str());
    state::DnsEvent {
        pid: raw.pid as i64,
        tgid: raw.tgid as i64,
        uid: raw.uid as i64,
        gid: raw.gid as i64,
        comm,
        daddr: format_ipv4(raw.daddr),
        dport: raw.dport as i64,
        is_dns: raw.is_dns,
    }
}

} // verus!
