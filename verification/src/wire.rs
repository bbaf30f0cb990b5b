//! DNS wire format used by the resolver shim: building A queries and reading
//! the IPv4 answers of a response.

use vstd::prelude::*;
use vstd::string::StringSliceAdditionalSpecFns;

verus! {

/// The byte that separates labels in a host name.
pub open spec fn dot() -> u8 {
    46u8
}

/// Left-to-right split of `bs` at dots: the labels completed so far and the
/// label being read.
pub open spec fn split_acc(bs: Seq<u8>) -> (Seq<Seq<u8>>, Seq<u8>)
    decreases bs.len(),
{
    if bs.len() == 0 {
        (seq![], seq![])
    } else {
        let (done, cur) = split_acc(bs.drop_last());
        if bs.last() == dot() {
            (done.push(cur), seq![])
        } else {
            (done, cur.push(bs.last()))
        }
    }
}

/// The labels of a host name split at every dot, empty labels included
/// (as `str::split('.')` yields them).
pub open spec fn dot_labels(bs: Seq<u8>) -> Seq<Seq<u8>> {
    split_acc(bs).0.push(split_acc(bs).1)
}

/// One label on the wire: its length byte (taken modulo 256), then its bytes.
pub open spec fn label_wire(l: Seq<u8>) -> Seq<u8> {
    seq![(l.len() % 256) as u8] + l
}

pub open spec fn labels_wire(ls: Seq<Seq<u8>>) -> Seq<u8>
    decreases ls.len(),
{
    if ls.len() == 0 {
        seq![]
    } else {
        labels_wire(ls.drop_last()) + label_wire(ls.last())
    }
}

/// A host name (given by its UTF-8 bytes) in DNS label form, root label included.
pub open spec fn encoded_name(bs: Seq<u8>) -> Seq<u8> {
    labels_wire(dot_labels(bs)).push(0u8)
}

/// The two bytes of `v`, most significant first.
pub open spec fn be_bytes(v: u16) -> Seq<u8> {
    seq![(v / 256) as u8, (v % 256) as u8]
}

/// A standard recursive query with one question of type A, class IN.
pub open spec fn query_wire(id: u16, name_bytes: Seq<u8>) -> Seq<u8> {
    be_bytes(id) + seq![1u8, 0u8, 0u8, 1u8, 0u8, 0u8, 0u8, 0u8, 0u8, 0u8] + encoded_name(name_bytes)
        + seq![0u8, 1u8, 0u8, 1u8]
}

proof fn lemma_labels_wire_push(ls: Seq<Seq<u8>>, l: Seq<u8>)
    ensures
        labels_wire(ls.push(l)) == labels_wire(ls) + label_wire(l),
{
    assert(ls.push(l).drop_last() =~= ls);
}

/// Appends `name` in DNS label form (length-prefixed labels and the root label).
pub fn encode_dns_name(packet: &mut Vec<u8>, name: &str)
    ensures
        final(packet)@ == old(packet)@ + encoded_name(name.spec_bytes()),
{
    let bs = name.as_bytes();
    let ghost b = bs@;
    let mut start: usize = 0;
    let mut i: usize = 0;
    while i < bs.len()
        invariant
            b == bs@,
            start <= i <= bs@.len(),
            split_acc(b.take(i as int)).1 == b.subrange(start as int, i as int),
            packet@ == old(packet)@ + labels_wire(split_acc(b.take(i as int)).0),
        decreases bs@.len() - i,
    {
        assert(b.take(i + 1).drop_last() =~= b.take(i as int));
        if bs[i] == 46 {
            let ghost before = packet@;
            let ghost lab = b.subrange(start as int, i as int);
            packet.push(((i - start) % 256) as u8);
            let mut j = start;
            while j < i
                invariant
                    b == bs@,
                    start <= j <= i < bs@.len(),
                    packet@ == before + seq![((i - start) % 256) as u8] + b.subrange(
                        start as int,
                        j as int,
                    ),
                decreases i - j,
            {
                packet.push(bs[j]);
                assert(b.subrange(start as int, j + 1) =~= b.subrange(start as int, j as int).push(
                    b[j as int],
                ));
                j = j + 1;
            }
            proof {
                lemma_labels_wire_push(split_acc(b.take(i as int)).0, lab);
                assert(label_wire(lab) =~= seq![((i - start) % 256) as u8] + lab);
            }
            start = i + 1;
            i = i + 1;
            assert(b.subrange(start as int, i as int) =~= Seq::<u8>::empty());
        } else {
            i = i + 1;
            assert(b.subrange(start as int, i as int) =~= b.subrange(
                start as int,
                i - 1,
            ).push(b[i - 1]));
        }
    }
    assert(b.take(i as int) =~= b);
    let ghost before = packet@;
    let ghost lab = b.subrange(start as int, i as int);
    packet.push(((i - start) % 256) as u8);
    let mut j = start;
    while j < i
        invariant
            b == bs@,
            start <= j <= i == bs@.len(),
            packet@ == before + seq![((i - start) % 256) as u8] + b.subrange(start as int, j as int),
        decreases i - j,
    {
        packet.push(bs[j]);
        assert(b.subrange(start as int, j + 1) =~= b.subrange(start as int, j as int).push(
            b[j as int],
        ));
        j = j + 1;
    }
    packet.push(0);
    proof {
        lemma_labels_wire_push(split_acc(b).0, lab);
        assert(label_wire(lab) =~= seq![((i - start) % 256) as u8] + lab);
        assert(packet@ =~= old(packet)@ + encoded_name(b));
    }
}

fn push_be16(packet: &mut Vec<u8>, v: u16)
    ensures
        final(packet)@ == old(packet)@ + be_bytes(v),
{
    packet.push((v / 256) as u8);
    packet.push((v % 256) as u8);
    assert(final(packet)@ =~= old(packet)@ + be_bytes(v));
}

/// Builds a recursive A/IN query for `hostname` with transaction id `id`.
pub fn build_dns_query(id: u16, hostname: &str) -> (packet: Vec<u8>)
    ensures
        packet@ == query_wire(id, hostname.spec_bytes()),
{
    let mut packet: Vec<u8> = Vec::new();
    push_be16(&mut packet, id);
    push_be16(&mut packet, 0x0100);
    push_be16(&mut packet, 1);
    push_be16(&mut packet, 0);
    push_be16(&mut packet, 0);
    push_be16(&mut packet, 0);
    encode_dns_name(&mut packet, hostname);
    push_be16(&mut packet, 1);
    push_be16(&mut packet, 1);
    assert(packet@ =~= query_wire(id, hostname.spec_bytes()));
    packet
}


/// Position just past the name that starts at `pos`: after the root label,
/// after a two-byte compression pointer, or wherever the labels run past the
/// end of `p`.
pub open spec fn skip_name(p: Seq<u8>, pos: int) -> int
    decreases if pos < p.len() { p.len() - pos } else { 0 },
{
    if pos < 0 || pos >= p.len() {
        pos
    } else if p[pos] == 0 {
        pos + 1
    } else if p[pos] & 0xC0u8 == 0xC0u8 {
        pos + 2
    } else {
        skip_name(p, pos + p[pos] + 1)
    }
}

proof fn lemma_skip_name_bound(p: Seq<u8>, pos: int)
    requires
        0 <= pos,
    ensures
        pos <= skip_name(p, pos) <= if pos > p.len() { pos } else { (p.len() + 256) as int },
    decreases if pos < p.len() { p.len() - pos } else { 0 },
{
    if pos < p.len() && p[pos] != 0 && p[pos] & 0xC0u8 != 0xC0u8 {
        lemma_skip_name_bound(p, pos + p[pos] + 1);
    }
}

/// Skips the (possibly compressed) name that starts at `offset`.
pub fn skip_dns_name(packet: &[u8], offset: usize) -> (r: usize)
    requires
        packet@.len() <= isize::MAX,
    ensures
        r as int == skip_name(packet@, offset as int),
{
    let mut pos = offset;
    while pos < packet.len()
        invariant
            packet@.len() <= isize::MAX,
            offset <= pos <= if offset > packet@.len() { offset as int } else { (packet@.len() + 256) as int },
            skip_name(packet@, offset as int) == skip_name(packet@, pos as int),
        decreases if pos < packet@.len() { packet@.len() - pos } else { 0 },
    {
        let len = packet[pos] as usize;
        if len == 0 {
            return pos + 1;
        }
        let b = packet[pos];
        if (b & 0xC0) == 0xC0 {
            return pos + 2;
        }
        pos = pos + len + 1;
    }
    pos
}

/// The IPv4 addresses of the A records among `count` resource records that
/// start at `offset`; reading stops at the first record that runs past the end.
pub open spec fn answer_ips(p: Seq<u8>, offset: int, count: nat) -> Seq<Seq<u8>>
    decreases count,
{
    if count == 0 || offset >= p.len() {
        seq![]
    } else {
        let o = skip_name(p, offset);
        if o + 10 > p.len() {
            seq![]
        } else {
            let rtype = be16(p[o], p[o + 1]);
            let rdlength = be16(p[o + 8], p[o + 9]);
            let d = o + 10;
            let here = if rtype == 1 && rdlength == 4 && d + 4 <= p.len() {
                seq![p.subrange(d, d + 4)]
            } else {
                seq![]
            };
            here + answer_ips(p, d + rdlength, (count - 1) as nat)
        }
    }
}

/// Big-endian 16-bit value of two bytes.
pub open spec fn be16(hi: u8, lo: u8) -> int {
    hi as int * 256 + lo as int
}

/// The IPv4 addresses answered in a DNS response: the A records among the
/// ANCOUNT records that follow the (single) question.
pub open spec fn response_ips(p: Seq<u8>) -> Seq<Seq<u8>> {
    if p.len() < 12 {
        seq![]
    } else {
        answer_ips(p, skip_name(p, 12) + 4, be16(p[6], p[7]) as nat)
    }
}

/// The views of a list of IPv4 addresses.
pub open spec fn addr_views(v: Seq<[u8; 4]>) -> Seq<Seq<u8>> {
    v.map_values(|a: [u8; 4]| a@)
}

/// Reads the IPv4 addresses of the A records of a DNS response.
pub fn parse_dns_response(packet: &[u8]) -> (ips: Vec<[u8; 4]>)
    requires
        packet@.len() <= isize::MAX,
    ensures
        addr_views(ips@) == response_ips(packet@),
{
    let mut ips: Vec<[u8; 4]> = Vec::new();
    if packet.len() < 12 {
        assert(addr_views(ips@) =~= Seq::<Seq<u8>>::empty());
        return ips;
    }
    let ancount = (packet[6] as usize) * 256 + (packet[7] as usize);
    let s = skip_dns_name(packet, 12);
    proof {
        lemma_skip_name_bound(packet@, 12);
    }
    let mut offset = s + 4;
    let ghost start = offset;
    let mut k: usize = 0;
    while k < ancount
        invariant
            packet@.len() <= isize::MAX,
            12 <= packet@.len(),
            ancount == be16(packet@[6], packet@[7]),
            k <= ancount,
            offset <= packet@.len() + 65536 + 300,
            answer_ips(packet@, start as int, ancount as nat) == addr_views(ips@) + answer_ips(
                packet@,
                offset as int,
                (ancount - k) as nat,
            ),
        ensures
            answer_ips(packet@, offset as int, (ancount - k) as nat) == Seq::<Seq<u8>>::empty(),
            answer_ips(packet@, start as int, ancount as nat) == addr_views(ips@) + answer_ips(
                packet@,
                offset as int,
                (ancount - k) as nat,
            ),
        decreases ancount - k,
    {
        if offset >= packet.len() {
            break;
        }
        let o = skip_dns_name(packet, offset);
        proof {
            lemma_skip_name_bound(packet@, offset as int);
        }
        if o + 10 > packet.len() {
            break;
        }
        let rtype = (packet[o] as usize) * 256 + (packet[o + 1] as usize);
        let rdlength = (packet[o + 8] as usize) * 256 + (packet[o + 9] as usize);
        let d = o + 10;
        let ghost rest = answer_ips(packet@, (d + rdlength) as int, (ancount - k - 1) as nat);
        if rtype == 1 && rdlength == 4 && d + 4 <= packet.len() {
            let ip = [packet[d], packet[d + 1], packet[d + 2], packet[d + 3]];
            let ghost prev = ips@;
            ips.push(ip);
            proof {
                assert(ip@ =~= packet@.subrange(d as int, d + 4));
                assert(addr_views(ips@) =~= addr_views(prev).push(ip@));
                assert(seq![packet@.subrange(d as int, d + 4)] + rest =~= seq![ip@] + rest);
                assert(addr_views(prev).push(ip@) + rest =~= addr_views(prev) + (seq![ip@] + rest));
            }
        } else {
            assert(Seq::<Seq<u8>>::empty() + rest =~= rest);
        }
        offset = d + rdlength;
        k = k + 1;
    }
    proof {
        assert(answer_ips(packet@, offset as int, (ancount - k) as nat) == Seq::<Seq<u8>>::empty());
        assert(addr_views(ips@) + Seq::<Seq<u8>>::empty() =~= addr_views(ips@));
    }
    ips
}


/// A label that DNS allows between dots: one to 63 bytes.
pub open spec fn valid_label(l: Seq<u8>) -> bool {
    1 <= l.len() <= 63
}

/// A host name whose dot-separated labels are all valid DNS labels.
pub open spec fn valid_host_name(bs: Seq<u8>) -> bool {
    forall|i: int| 0 <= i < dot_labels(bs).len() ==> valid_label(#[trigger] dot_labels(bs)[i])
}

proof fn lemma_labels_wire_first(ls: Seq<Seq<u8>>)
    requires
        ls.len() > 0,
    ensures
        labels_wire(ls) == label_wire(ls[0]) + labels_wire(ls.drop_first()),
    decreases ls.len(),
{
    if ls.len() == 1 {
        assert(ls.drop_first() =~= Seq::<Seq<u8>>::empty());
        assert(ls.drop_last() =~= Seq::<Seq<u8>>::empty());
        assert(labels_wire(ls.drop_last()) == Seq::<u8>::empty());
        assert(ls.last() == ls[0]);
        assert(labels_wire(ls) =~= label_wire(ls[0]));
        assert(label_wire(ls[0]) + labels_wire(ls.drop_first()) =~= label_wire(ls[0]));
    } else {
        lemma_labels_wire_first(ls.drop_last());
        assert(ls.drop_last().drop_first() =~= ls.drop_first().drop_last());
        assert(ls.drop_first().last() == ls.last());
        assert(labels_wire(ls) =~= label_wire(ls[0]) + labels_wire(ls.drop_first()));
    }
}

proof fn lemma_skip_labels(pre: Seq<u8>, ls: Seq<Seq<u8>>, tail: Seq<u8>)
    requires
        forall|i: int| 0 <= i < ls.len() ==> valid_label(#[trigger] ls[i]),
        tail.len() > 0,
        tail[0] == 0,
    ensures
        skip_name(pre + labels_wire(ls) + tail, pre.len() as int) == pre.len() + labels_wire(
            ls,
        ).len() + 1,
    decreases ls.len(),
{
    let p = pre + labels_wire(ls) + tail;
    if ls.len() == 0 {
        assert(p[pre.len() as int] == tail[0]);
    } else {
        let l = ls[0];
        lemma_labels_wire_first(ls);
        let pre2 = pre + label_wire(l);
        assert(p =~= pre2 + labels_wire(ls.drop_first()) + tail);
        assert(valid_label(l));
        let b = p[pre.len() as int];
        assert(b == (l.len() % 256) as u8);
        assert(b as int == l.len());
        assert(b & 0xC0u8 != 0xC0u8) by (bit_vector)
            requires
                b < 64u8,
        ;
        assert forall|i: int| 0 <= i < ls.drop_first().len() implies valid_label(
            #[trigger] ls.drop_first()[i],
        ) by {
            assert(ls.drop_first()[i] == ls[i + 1]);
        }
        lemma_skip_labels(pre2, ls.drop_first(), tail);
    }
}

/// Skipping a name encoded from a valid host name, wherever it stands in a
/// packet and whatever follows it, ends just after its root label.
pub proof fn lemma_skip_spans_encoded_name(pre: Seq<u8>, name_bytes: Seq<u8>, rest: Seq<u8>)
    requires
        valid_host_name(name_bytes),
    ensures
        skip_name(pre + encoded_name(name_bytes) + rest, pre.len() as int) == pre.len()
            + encoded_name(name_bytes).len(),
{
    let ls = dot_labels(name_bytes);
    let tail = seq![0u8] + rest;
    assert(pre + encoded_name(name_bytes) + rest =~= pre + labels_wire(ls) + tail);
    lemma_skip_labels(pre, ls, tail);
}

/// In a query built for a valid host name, the question's name ends exactly
/// where its four type and class bytes begin, at the end of the packet.
pub proof fn lemma_query_name_spans_question(id: u16, name_bytes: Seq<u8>)
    requires
        valid_host_name(name_bytes),
    ensures
        skip_name(query_wire(id, name_bytes), 12) + 4 == query_wire(id, name_bytes).len(),
{
    let pre = be_bytes(id) + seq![1u8, 0u8, 0u8, 1u8, 0u8, 0u8, 0u8, 0u8, 0u8, 0u8];
    let ls = dot_labels(name_bytes);
    let tail = seq![0u8, 0u8, 1u8, 0u8, 1u8];
    assert(query_wire(id, name_bytes) =~= pre + labels_wire(ls) + tail);
    lemma_skip_labels(pre, ls, tail);
}

/// A query carries no answers: reading it as a response yields no address.
pub proof fn lemma_query_has_no_answers(id: u16, name_bytes: Seq<u8>)
    ensures
        response_ips(query_wire(id, name_bytes)) == Seq::<Seq<u8>>::empty(),
{
    let q = query_wire(id, name_bytes);
    assert(q[6] == 0u8 && q[7] == 0u8);
}

} // verus!
