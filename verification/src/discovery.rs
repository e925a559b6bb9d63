//! Local-network discovery: the peers found over mDNS, the address a device
//! announces, and the service names it registers. Only the device id, name, port
//! and protocol version are announced, never clipboard content.

use vstd::prelude::*;
use crate::identity::map_non_alnum;
use crate::text::{
    byte_prefix, byte_prefix_of, decimal, is_char_boundary, opt_chars, spec_to_lowercase, to_lowercase, trim_both,
};

verus! {

broadcast use vstd::string::group_string_axioms;

/// The DNS-SD service type.
pub const SERVICE_TYPE: &'static str = "_lanclip._udp.local.";

/// The protocol version announced.
pub const PROTO_VERSION: &'static str = "1";

/// The longest service label, in characters.
pub const LABEL_MAX: usize = 40;

/// An IP address of a local interface.
#[derive(Clone, Copy, Debug)]
pub enum IpAddress {
    V4([u8; 4]),
    V6([u8; 16]),
}

/// An IPv4 socket address.
#[derive(Clone, Copy, Debug)]
pub struct PeerAddr {
    pub ip: [u8; 4],
    pub port: u16,
}

/// A device found on the network (paired or not).
#[derive(Clone, Debug)]
pub struct Peer {
    pub device_id: String,
    pub name: String,
    pub addr: PeerAddr,
    pub last_seen_ms: i64,
}

/// How strongly an IPv4 address is preferred: 192.168/16 first, then 10/8, then
/// 172.16/12, then the rest.
pub open spec fn ip_rank(ip: Seq<u8>) -> int {
    if ip[0] == 192 && ip[1] == 168 {
        0
    } else if ip[0] == 10 {
        1
    } else if ip[0] == 172 && 16 <= ip[1] <= 31 {
        2
    } else {
        3
    }
}

/// Whether an interface address can be announced: IPv4 and not loopback.
pub open spec fn is_candidate(a: IpAddress) -> bool {
    a matches IpAddress::V4(v4) && v4@[0] != 127
}

/// The address announced: among the IPv4, non-loopback addresses, the first of the
/// best rank; `127.0.0.1` when there is none.
pub open spec fn is_picked(addrs: Seq<IpAddress>, ip: Seq<u8>) -> bool {
    if exists|i: int| 0 <= i < addrs.len() && is_candidate(#[trigger] addrs[i]) {
        exists|i: int|
            0 <= i < addrs.len() && is_candidate(#[trigger] addrs[i]) && addrs[i]->V4_0@ == ip && (
            forall|j: int|
                0 <= j < addrs.len() && is_candidate(#[trigger] addrs[j]) ==> ip_rank(ip) <= ip_rank(
                    addrs[j]->V4_0@,
                )) && (forall|j: int|
                0 <= j < i && is_candidate(#[trigger] addrs[j]) ==> ip_rank(ip) < ip_rank(
                    addrs[j]->V4_0@,
                ))
    } else {
        ip == seq![127u8, 0, 0, 1]
    }
}

/// Whether an IPv4 address is in 192.168.0.0/16.
pub open spec fn in_192_168(ip: Seq<u8>) -> bool {
    ip[0] == 192 && ip[1] == 168
}

/// Whether an IPv4 address is in 10.0.0.0/8.
pub open spec fn in_10(ip: Seq<u8>) -> bool {
    ip[0] == 10
}

/// Whether an IPv4 address is in 172.16.0.0/12 (172.16.x.x to 172.31.x.x).
pub open spec fn in_172_16(ip: Seq<u8>) -> bool {
    ip[0] == 172 && 16 <= ip[1] && ip[1] <= 31
}

/// The announced address follows the private ranges in order: when some
/// announceable address is in 192.168/16 the announced one is too; else when one
/// is in 10/8 the announced one is; else when one is in 172.16/12 (any of
/// 172.16 to 172.31) the announced one is.
pub proof fn lemma_pick_prefers_private(addrs: Seq<IpAddress>, ip: Seq<u8>, k: int)
    requires
        is_picked(addrs, ip),
        0 <= k < addrs.len(),
        is_candidate(addrs[k]),
    ensures
        in_192_168(addrs[k]->V4_0@) ==> in_192_168(ip),
        in_10(addrs[k]->V4_0@) && (forall|j: int| 0 <= j < addrs.len() && is_candidate(#[trigger] addrs[j]) ==> !in_192_168(
            addrs[j]->V4_0@,
        )) ==> in_10(ip),
        in_172_16(addrs[k]->V4_0@) && (forall|j: int| 0 <= j < addrs.len() && is_candidate(#[trigger] addrs[j]) ==> !in_192_168(
            addrs[j]->V4_0@,
        ) && !in_10(addrs[j]->V4_0@)) ==> in_172_16(ip),
{
    let i = choose|i: int|
        0 <= i < addrs.len() && is_candidate(#[trigger] addrs[i]) && addrs[i]->V4_0@ == ip && (forall|j: int|
            0 <= j < addrs.len() && is_candidate(#[trigger] addrs[j]) ==> ip_rank(ip) <= ip_rank(addrs[j]->V4_0@))
            && (forall|j: int| 0 <= j < i && is_candidate(#[trigger] addrs[j]) ==> ip_rank(ip) < ip_rank(addrs[j]->V4_0@));
    assert(ip_rank(ip) <= ip_rank(addrs[k]->V4_0@));
    assert(is_candidate(addrs[i]));
}

fn rank_of(ip: &[u8; 4]) -> (r: u8)
    ensures
        r == ip_rank(ip@),
{
    if ip[0] == 192 && ip[1] == 168 {
        0
    } else if ip[0] == 10 {
        1
    } else if ip[0] == 172 && 16 <= ip[1] && ip[1] <= 31 {
        2
    } else {
        3
    }
}

/// Picks the address to announce from the local interface addresses.
pub fn pick_ip(addrs: &[IpAddress]) -> (ip: [u8; 4])
    ensures
        is_picked(addrs@, ip@),
{
    let mut best: Option<([u8; 4], usize)> = None;
    let mut i: usize = 0;
    while i < addrs.len()
        invariant
            i <= addrs@.len(),
            best is None ==> forall|j: int| 0 <= j < i ==> !is_candidate(#[trigger] addrs@[j]),
            best matches Some((b, k)) ==> {
                &&& k < i
                &&& is_candidate(addrs@[k as int])
                &&& addrs@[k as int]->V4_0@ == b@
                &&& forall|j: int|
                    0 <= j < i && is_candidate(#[trigger] addrs@[j]) ==> ip_rank(b@) <= ip_rank(
                        addrs@[j]->V4_0@,
                    )
                &&& forall|j: int|
                    0 <= j < k && is_candidate(#[trigger] addrs@[j]) ==> ip_rank(b@) < ip_rank(
                        addrs@[j]->V4_0@,
                    )
            },
        decreases addrs@.len() - i,
    {
        match addrs[i] {
            IpAddress::V4(v4) => {
                if v4[0] != 127 {
                    let better = match best {
                        None => true,
                        Some((b, _)) => rank_of(&v4) < rank_of(&b),
                    };
                    if better {
                        best = Some((v4, i));
                    }
                }
            },
            IpAddress::V6(_) => {},
        }
        i = i + 1;
    }
    match best {
        Some((b, k)) => {
            assert(is_candidate(addrs@[k as int]));
            b
        },
        None => {
            let lo: [u8; 4] = [127, 0, 0, 1];
            assert(lo@ =~= seq![127u8, 0, 0, 1]);
            lo
        },
    }
}

/// A device name made into a service label: ASCII letters and digits (lower
/// case) kept, anything else a dash, dashes trimmed, `"lanclip"` if nothing is
/// left, at most forty characters.
pub open spec fn spec_sanitize_label(s: Seq<char>) -> Seq<char> {
    let t = trim_both(map_non_alnum(s, true), true);
    let v = if t.len() == 0 {
        seq!['l', 'a', 'n', 'c', 'l', 'i', 'p']
    } else {
        t
    };
    if v.len() <= 40 {
        v
    } else {
        v.take(40)
    }
}

/// Turns a device name into a service label.
pub fn sanitize_label(s: &str) -> (r: String)
    ensures
        r@ == spec_sanitize_label(s@),
{
    let mapped = crate::identity::map_chars(s, true);
    let t = crate::text::trim_chars(mapped.as_slice(), true);
    let v: Vec<char> = if t.len() == 0 {
        let mut d: Vec<char> = Vec::new();
        d.push('l');
        d.push('a');
        d.push('n');
        d.push('c');
        d.push('l');
        d.push('i');
        d.push('p');
        assert(d@ =~= seq!['l', 'a', 'n', 'c', 'l', 'i', 'p']);
        d
    } else {
        t
    };
    let mut out: Vec<char> = Vec::new();
    let mut i: usize = 0;
    while i < v.len() && i < LABEL_MAX
        invariant
            i <= v@.len(),
            i <= 40,
            out@ == v@.take(i as int),
        decreases v@.len() - i,
    {
        out.push(v[i]);
        assert(out@ =~= v@.take(i + 1));
        i = i + 1;
    }
    assert(v@.len() <= 40 ==> v@.take(i as int) =~= v@);
    crate::text::chars_to_string(out.as_slice())
}

/// The short id: the first six bytes of the device id (`&id[..6]`), lower-cased
/// with `str::to_lowercase`.
pub open spec fn short_id(device_id: Seq<char>) -> Seq<char> {
    spec_to_lowercase(byte_prefix(device_id, 6))
}

fn short_id_chars(device_id: &str) -> (r: Vec<char>)
    requires
        is_char_boundary(device_id@, 6),
    ensures
        r@ == short_id(device_id@),
{
    let prefix = byte_prefix_of(device_id, 6);
    let lower = to_lowercase(prefix.as_str());
    crate::text::str_chars(lower.as_str())
}

/// The service instance name: the label of the device name, a dash and the short id.
pub open spec fn spec_instance_name(name: Seq<char>, device_id: Seq<char>) -> Seq<char> {
    spec_sanitize_label(name) + seq!['-'] + short_id(device_id)
}

/// The instance name registered for a device named `name`.
pub fn instance_name(name: &str, device_id: &str) -> (r: String)
    requires
        is_char_boundary(device_id@, 6),
    ensures
        r@ == spec_instance_name(name@, device_id@),
{
    let mut cs = crate::text::str_chars(sanitize_label(name).as_str());
    cs.push('-');
    let ghost start = cs@;
    let short = short_id_chars(device_id);
    let mut i: usize = 0;
    while i < short.len()
        invariant
            i <= short@.len(),
            cs@ == start + short@.take(i as int),
        decreases short@.len() - i,
    {
        cs.push(short[i]);
        assert(cs@ =~= start + short@.take(i + 1));
        i = i + 1;
    }
    assert(short@.take(short@.len() as int) =~= short@);
    crate::text::chars_to_string(cs.as_slice())
}

/// The host name registered: `lanclip-<short id>.local.`.
pub open spec fn spec_host_name(device_id: Seq<char>) -> Seq<char> {
    seq!['l', 'a', 'n', 'c', 'l', 'i', 'p', '-'] + short_id(device_id) + seq![
        '.',
        'l',
        'o',
        'c',
        'a',
        'l',
        '.',
    ]
}

fn push_str_chars(out: &mut Vec<char>, s: &str)
    ensures
        final(out)@ == old(out)@ + s@,
{
    let cs = crate::text::str_chars(s);
    let ghost start = out@;
    let mut i: usize = 0;
    while i < cs.len()
        invariant
            cs@ == s@,
            i <= cs@.len(),
            out@ == start + cs@.take(i as int),
        decreases cs@.len() - i,
    {
        out.push(cs[i]);
        assert(out@ =~= start + cs@.take(i + 1));
        i = i + 1;
    }
    assert(cs@.take(cs@.len() as int) =~= cs@);
}

/// The host name registered for a device.
pub fn host_name(device_id: &str) -> (r: String)
    requires
        is_char_boundary(device_id@, 6),
    ensures
        r@ == spec_host_name(device_id@),
{
    proof {
        reveal_strlit("lanclip-");
        reveal_strlit(".local.");
    }
    let mut cs: Vec<char> = Vec::new();
    push_str_chars(&mut cs, "lanclip-");
    let short = short_id_chars(device_id);
    let ghost start = cs@;
    let mut i: usize = 0;
    while i < short.len()
        invariant
            i <= short@.len(),
            cs@ == start + short@.take(i as int),
        decreases short@.len() - i,
    {
        cs.push(short[i]);
        assert(cs@ =~= start + short@.take(i + 1));
        i = i + 1;
    }
    assert(short@.take(short@.len() as int) =~= short@);
    push_str_chars(&mut cs, ".local.");
    assert(cs@ =~= spec_host_name(device_id@));
    crate::text::chars_to_string(cs.as_slice())
}

/// The full service name `<instance>.<service type>`, used to unregister.
pub fn full_service_name(instance: &str) -> (r: String)
    ensures
        r@ == instance@ + seq!['.'] + SERVICE_TYPE@,
{
    let mut cs = crate::text::str_chars(instance);
    cs.push('.');
    push_str_chars(&mut cs, SERVICE_TYPE);
    crate::text::chars_to_string(cs.as_slice())
}

/// `a.b.c.d:port`, as `SocketAddr` prints an IPv4 address.
pub open spec fn spec_addr_text(addr: PeerAddr) -> Seq<char> {
    decimal(addr.ip@[0] as nat) + seq!['.'] + decimal(addr.ip@[1] as nat) + seq!['.'] + decimal(
        addr.ip@[2] as nat,
    ) + seq!['.'] + decimal(addr.ip@[3] as nat) + seq![':'] + decimal(addr.port as nat)
}

/// The text of a peer address.
pub fn addr_text(addr: &PeerAddr) -> (r: String)
    ensures
        r@ == spec_addr_text(*addr),
{
    let mut cs: Vec<char> = Vec::new();
    crate::text::push_decimal(&mut cs, addr.ip[0] as u32);
    cs.push('.');
    crate::text::push_decimal(&mut cs, addr.ip[1] as u32);
    cs.push('.');
    crate::text::push_decimal(&mut cs, addr.ip[2] as u32);
    cs.push('.');
    crate::text::push_decimal(&mut cs, addr.ip[3] as u32);
    cs.push(':');
    crate::text::push_decimal(&mut cs, addr.port as u32);
    assert(cs@ =~= spec_addr_text(*addr));
    crate::text::chars_to_string(cs.as_slice())
}

/// The TXT properties announced on the network: the device id, the protocol
/// version and the device name, and nothing else.
pub fn service_properties(device_id: &str, name: &str) -> (p: Vec<(String, String)>)
    ensures
        p@.len() == 3,
        p@[0].0@ == seq!['i', 'd'] && p@[0].1@ == device_id@,
        p@[1].0@ == seq!['v'] && p@[1].1@ == seq!['1'],
        p@[2].0@ == seq!['n'] && p@[2].1@ == name@,
{
    proof {
        reveal_strlit("id");
        reveal_strlit("v");
        reveal_strlit("n");
        reveal_strlit("1");
    }
    let mut p: Vec<(String, String)> = Vec::new();
    p.push((String::from_str("id"), device_id.to_owned()));
    p.push((String::from_str("v"), PROTO_VERSION.to_owned()));
    p.push((String::from_str("n"), name.to_owned()));
    assert("id"@ =~= seq!['i', 'd']);
    assert("v"@ =~= seq!['v']);
    assert("n"@ =~= seq!['n']);
    assert(PROTO_VERSION@ =~= seq!['1']);
    p
}

/// `after` is `before` with `peer` recorded: `peer` is the one entry with its
/// device id, and the entries with other ids are kept, and no others added.
pub open spec fn peer_inserted(before: PeerTable, after: PeerTable, peer: Peer) -> bool {
    &&& after.has(peer.device_id@)
    &&& forall|i: int|
        0 <= i < after.seq().len() && (#[trigger] after.seq()[i]).device_id@ == peer.device_id@ ==> after.seq()[i]
            == peer
    &&& forall|i: int|
        0 <= i < before.seq().len() && (#[trigger] before.seq()[i]).device_id@ != peer.device_id@ ==> exists|j: int|
            0 <= j < after.seq().len() && after.seq()[j] == before.seq()[i]
    &&& forall|j: int|
        0 <= j < after.seq().len() && (#[trigger] after.seq()[j]).device_id@ != peer.device_id@ ==> exists|i: int|
            0 <= i < before.seq().len() && after.seq()[j] == before.seq()[i]
}

/// The peers currently seen on the network, keyed by device id.
pub struct PeerTable {
    peers: Vec<Peer>,
}

impl PeerTable {
    /// The peers, in the order they were first seen.
    pub closed spec fn seq(&self) -> Seq<Peer> {
        self.peers@
    }

    /// No device id occurs twice.
    pub open spec fn wf(&self) -> bool {
        forall|i: int, j: int|
            0 <= i < j < self.seq().len() ==> #[trigger] self.seq()[i].device_id@
                != #[trigger] self.seq()[j].device_id@
    }

    /// Whether some peer has device id `id`.
    pub open spec fn has(&self, id: Seq<char>) -> bool {
        exists|i: int| 0 <= i < self.seq().len() && #[trigger] self.seq()[i].device_id@ == id
    }

    /// No peers.
    pub fn new() -> (r: PeerTable)
        ensures
            r.wf(),
            r.seq().len() == 0,
    {
        PeerTable { peers: Vec::new() }
    }

    /// The peers.
    pub fn entries(&self) -> (r: &Vec<Peer>)
        ensures
            r@ == self.seq(),
    {
        &self.peers
    }

    fn position(&self, id: &str) -> (r: Option<usize>)
        ensures
            r matches Some(i) ==> i < self.seq().len() && self.seq()[i as int].device_id@ == id@,
            r is None ==> !self.has(id@),
    {
        let key = id.to_owned();
        let mut i: usize = 0;
        while i < self.peers.len()
            invariant
                key@ == id@,
                i <= self.peers@.len(),
                forall|j: int| 0 <= j < i ==> #[trigger] self.peers@[j].device_id@ != id@,
            decreases self.peers@.len() - i,
        {
            if self.peers[i].device_id == key {
                return Some(i);
            }
            i = i + 1;
        }
        None
    }

    /// The peer with device id `id`.
    pub fn get(&self, id: &str) -> (r: Option<&Peer>)
        requires
            self.wf(),
        ensures
            r matches Some(p) ==> p.device_id@ == id@ && exists|i: int|
                0 <= i < self.seq().len() && self.seq()[i] == *p,
            r is None ==> !self.has(id@),
    {
        match self.position(id) {
            Some(i) => Some(&self.peers[i]),
            None => None,
        }
    }

    /// Records `peer`, replacing the entry with the same device id.
    #[verifier::rlimit(50)]
    pub fn insert(&mut self, peer: Peer)
        requires
            old(self).wf(),
        ensures
            final(self).wf(),
            peer_inserted(*old(self), *final(self), peer),
    {
        let ghost before = self.peers@;
        let ghost id = peer.device_id@;
        let ghost pg = peer;
        match self.position(peer.device_id.as_str()) {
            Some(i) => {
                self.peers.set(i, peer);
                assert(self.seq()[i as int].device_id@ == id);
                assert forall|a: int, b: int|
                    0 <= a < b < self.peers@.len() implies #[trigger] self.peers@[a].device_id@
                    != #[trigger] self.peers@[b].device_id@ by {
                    assert(before[a].device_id@ != before[b].device_id@);
                }
                assert(self.peers@[i as int].device_id@ == id);
                assert forall|k: int|
                    0 <= k < before.len() && (#[trigger] before[k]).device_id@ != id implies exists|j: int|
                    0 <= j < self.peers@.len() && self.peers@[j] == before[k] by {
                    assert(self.peers@[k] == before[k]);
                }
                assert forall|j: int|
                    0 <= j < self.peers@.len() && (#[trigger] self.peers@[j]).device_id@ != id implies exists|k: int|
                    0 <= k < before.len() && self.peers@[j] == before[k] by {
                    assert(self.peers@[j] == before[j]);
                }
                assert forall|k: int|
                    0 <= k < self.peers@.len() && (#[trigger] self.peers@[k]).device_id@ == id implies self.peers@[k] == self.peers@[i as int] by {
                    if k != i {
                        if k < i {
                            assert(before[k].device_id@ != before[i as int].device_id@);
                        } else {
                            assert(before[i as int].device_id@ != before[k].device_id@);
                        }
                    }
                }
                proof {
                    assert(old(self).seq() == before);
                    assert forall|k: int| 0 <= k < self.seq().len() && (#[trigger] self.seq()[k]).device_id@ == id implies self.seq()[k]
                        == pg by {
                        assert(self.seq()[k] == self.peers@[k]);
                    }
                    assert forall|k: int|
                        0 <= k < old(self).seq().len() && (#[trigger] old(self).seq()[k]).device_id@ != id implies exists|j: int|
                        0 <= j < self.seq().len() && self.seq()[j] == old(self).seq()[k] by {
                        assert(self.peers@[k] == before[k]);
                        assert(self.seq()[k] == old(self).seq()[k]);
                    }
                    assert forall|j: int|
                        0 <= j < self.seq().len() && (#[trigger] self.seq()[j]).device_id@ != id implies exists|k: int|
                        0 <= k < old(self).seq().len() && self.seq()[j] == old(self).seq()[k] by {
                        assert(self.peers@[j] == before[j]);
                        assert(self.seq()[j] == old(self).seq()[j]);
                    }
                }
            },
            None => {
                proof {
                    assert forall|k: int| 0 <= k < before.len() implies #[trigger] before[k].device_id@ != id by {
                        if before[k].device_id@ == id {
                            assert(self.seq()[k].device_id@ == id);
                        }
                    }
                    assert forall|a: int, b: int| 0 <= a < b < before.len() implies #[trigger] before[a].device_id@
                        != #[trigger] before[b].device_id@ by {
                        assert(self.seq()[a].device_id@ != self.seq()[b].device_id@);
                    }
                }
                self.peers.push(peer);
                let ghost n: int = self.peers@.len() - 1;
                assert forall|a: int, b: int|
                    0 <= a < b < self.peers@.len() implies #[trigger] self.peers@[a].device_id@
                    != #[trigger] self.peers@[b].device_id@ by {
                    if b == n {
                        assert(before[a].device_id@ != id);
                    } else {
                        assert(before[a].device_id@ != before[b].device_id@);
                    }
                }
                assert(self.peers@[n].device_id@ == id);
                assert(self.seq()[n].device_id@ == id);
                assert forall|k: int|
                    0 <= k < before.len() && (#[trigger] before[k]).device_id@ != id implies exists|j: int|
                    0 <= j < self.peers@.len() && self.peers@[j] == before[k] by {
                    assert(self.peers@[k] == before[k]);
                }
                assert forall|j: int|
                    0 <= j < self.peers@.len() && (#[trigger] self.peers@[j]).device_id@ != id implies exists|k: int|
                    0 <= k < before.len() && self.peers@[j] == before[k] by {
                    assert(self.peers@[j] == before[j]);
                }
                assert(self.peers@[n] == pg);
                assert forall|k: int|
                    0 <= k < self.peers@.len() && (#[trigger] self.peers@[k]).device_id@ == id implies self.peers@[k] == pg by {
                    if k < n {
                        assert(self.peers@[k] == before[k]);
                    }
                }
                proof {
                    assert(old(self).seq() == before);
                    assert forall|k: int| 0 <= k < self.seq().len() && (#[trigger] self.seq()[k]).device_id@ == id implies self.seq()[k]
                        == pg by {
                        assert(self.seq()[k] == self.peers@[k]);
                    }
                    assert forall|k: int|
                        0 <= k < old(self).seq().len() && (#[trigger] old(self).seq()[k]).device_id@ != id implies exists|j: int|
                        0 <= j < self.seq().len() && self.seq()[j] == old(self).seq()[k] by {
                        assert(self.peers@[k] == before[k]);
                        assert(self.seq()[k] == old(self).seq()[k]);
                    }
                    assert forall|j: int|
                        0 <= j < self.seq().len() && (#[trigger] self.seq()[j]).device_id@ != id implies exists|k: int|
                        0 <= k < old(self).seq().len() && self.seq()[j] == old(self).seq()[k] by {
                        assert(self.peers@[j] == before[j]);
                        assert(self.seq()[j] == old(self).seq()[j]);
                    }
                }
            },
        }
    }

    /// Forgets the peer with device id `id`.
    pub fn remove(&mut self, id: &str)
        requires
            old(self).wf(),
        ensures
            final(self).wf(),
            !final(self).has(id@),
            final(self).seq() == old(self).seq().filter(|p: Peer| p.device_id@ != id@),
    {
        let ghost before = self.peers@;
        let ghost pred = |p: Peer| p.device_id@ != id@;
        match self.position(id) {
            Some(i) => {
                self.peers.remove(i);
                proof {
                    assert forall|k: int| 0 <= k < before.len() && k != i implies (#[trigger] before[k]).device_id@ != id@ by {
                        if k < i {
                            assert(before[k].device_id@ != before[i as int].device_id@);
                        } else {
                            assert(before[i as int].device_id@ != before[k].device_id@);
                        }
                    }
                    lemma_filter_drop_one(before, pred, i as int);
                    assert forall|a: int, b: int|
                        0 <= a < b < self.peers@.len() implies #[trigger] self.peers@[a].device_id@
                        != #[trigger] self.peers@[b].device_id@ by {
                        let a2 = if a < i { a } else { a + 1 };
                        let b2 = if b < i { b } else { b + 1 };
                        assert(self.peers@[a] == before[a2]);
                        assert(self.peers@[b] == before[b2]);
                        assert(before[a2].device_id@ != before[b2].device_id@);
                    }
                    assert(!self.has(id@)) by {
                        if self.has(id@) {
                            let k = choose|k: int| 0 <= k < self.peers@.len() && #[trigger] self.peers@[k].device_id@ == id@;
                            let k2 = if k < i { k } else { k + 1 };
                            assert(self.peers@[k] == before[k2]);
                        }
                    }
                }
            },
            None => {
                proof {
                    assert forall|k: int| 0 <= k < before.len() implies pred(#[trigger] before[k]) by {
                        if before[k].device_id@ == id@ {
                            assert(self.seq()[k].device_id@ == id@);
                            assert(self.has(id@));
                        }
                    }
                    lemma_filter_all(before, pred);
                }
            },
        }
    }
}

proof fn lemma_filter_all(s: Seq<Peer>, pred: spec_fn(Peer) -> bool)
    requires
        forall|k: int| 0 <= k < s.len() ==> pred(#[trigger] s[k]),
    ensures
        s.filter(pred) == s,
    decreases s.len(),
{
    reveal_with_fuel(Seq::filter, 1);
    if s.len() > 0 {
        lemma_filter_all(s.drop_last(), pred);
        assert(s.drop_last().push(s.last()) =~= s);
    } else {
        assert(s.filter(pred) =~= s);
    }
}

proof fn lemma_filter_drop_one(s: Seq<Peer>, pred: spec_fn(Peer) -> bool, i: int)
    requires
        0 <= i < s.len(),
        !pred(s[i]),
        forall|k: int| 0 <= k < s.len() && k != i ==> pred(#[trigger] s[k]),
    ensures
        s.filter(pred) == s.remove(i),
    decreases s.len(),
{
    reveal_with_fuel(Seq::filter, 1);
    if i == s.len() - 1 {
        assert(s.remove(i) =~= s.drop_last());
        assert forall|k: int| 0 <= k < s.drop_last().len() implies pred(#[trigger] s.drop_last()[k]) by {
            assert(s.drop_last()[k] == s[k]);
        }
        lemma_filter_all(s.drop_last(), pred);
    } else {
        let d = s.drop_last();
        assert forall|k: int| 0 <= k < d.len() && k != i implies pred(#[trigger] d[k]) by {
            assert(d[k] == s[k]);
        }
        lemma_filter_drop_one(d, pred, i);
        assert(pred(s.last()));
        assert(s.remove(i) =~= d.remove(i).push(s.last()));
    }
}


/// The device id last recorded for `fullname` in `entries` (later entries win).
pub open spec fn lookup_in(entries: Seq<(String, String)>, fullname: Seq<char>) -> Option<Seq<char>>
    decreases entries.len(),
{
    if entries.len() == 0 {
        None
    } else if entries.last().0@ == fullname {
        Some(entries.last().1@)
    } else {
        lookup_in(entries.drop_last(), fullname)
    }
}

/// Which device each announced service instance (by full name) stands for.
pub struct FullnameIds {
    entries: Vec<(String, String)>,
}

impl FullnameIds {
    /// The device id recorded for `fullname`.
    pub closed spec fn lookup(&self, fullname: Seq<char>) -> Option<Seq<char>> {
        lookup_in(self.entries@, fullname)
    }

    /// Nothing recorded.
    pub fn new() -> (r: FullnameIds)
        ensures
            forall|f: Seq<char>| #[trigger] r.lookup(f) is None,
    {
        FullnameIds { entries: Vec::new() }
    }

    /// Records that `fullname` stands for device `id`.
    pub fn insert(&mut self, fullname: String, id: String)
        ensures
            final(self).lookup(fullname@) == Some(id@),
            forall|f: Seq<char>| f != fullname@ ==> #[trigger] final(self).lookup(f) == old(self).lookup(f),
    {
        let ghost before = self.entries@;
        self.entries.push((fullname, id));
        assert(self.entries@.drop_last() =~= before);
    }

    /// Forgets `fullname`, returning the device id it stood for.
    pub fn remove(&mut self, fullname: &str) -> (r: Option<String>)
        ensures
            match old(self).lookup(fullname@) {
                Some(id) => r matches Some(x) && x@ == id,
                None => r is None,
            },
            final(self).lookup(fullname@) is None,
            forall|f: Seq<char>| f != fullname@ ==> #[trigger] final(self).lookup(f) == old(self).lookup(f),
    {
        let key = fullname.to_owned();
        let mut found: Option<String> = None;
        let mut k: usize = self.entries.len();
        assert(self.entries@.take(k as int) =~= self.entries@);
        while k > 0
            invariant_except_break
                found is None,
            invariant
                key@ == fullname@,
                k <= self.entries@.len(),
                lookup_in(self.entries@, fullname@) == lookup_in(self.entries@.take(k as int), fullname@),
            ensures
                match lookup_in(self.entries@, fullname@) {
                    Some(id) => found matches Some(x) && x@ == id,
                    None => found is None,
                },
            decreases k,
        {
            assert(self.entries@.take(k as int).drop_last() =~= self.entries@.take(k - 1));
            assert(self.entries@.take(k as int).last() == self.entries@[k - 1]);
            if self.entries[k - 1].0 == key {
                found = Some(self.entries[k - 1].1.clone());
                break;
            }
            k = k - 1;
        }
        let ghost before = self.entries@;
        let mut out: Vec<(String, String)> = Vec::new();
        let mut j: usize = 0;
        while j < self.entries.len()
            invariant
                key@ == fullname@,
                self.entries@ == before,
                j <= before.len(),
                forall|g: Seq<char>| #[trigger] lookup_in(out@, g) == if g == fullname@ {
                    None
                } else {
                    lookup_in(before.take(j as int), g)
                },
            decreases before.len() - j,
        {
            let ghost prev = out@;
            assert(before.take(j + 1).drop_last() =~= before.take(j as int));
            if self.entries[j].0 != key {
                let e = (self.entries[j].0.clone(), self.entries[j].1.clone());
                out.push(e);
                assert(out@.drop_last() =~= prev);
            }
            assert forall|g: Seq<char>| #[trigger] lookup_in(out@, g) == if g == fullname@ {
                None
            } else {
                lookup_in(before.take(j + 1), g)
            } by {
                assert(lookup_in(prev, g) == if g == fullname@ { None } else { lookup_in(before.take(j as int), g) });
            }
            j = j + 1;
        }
        assert(before.take(before.len() as int) =~= before);
        self.entries = out;
        found
    }
}

/// `name`, or `"未知设备"` (unknown device) when the announcement has none.
pub open spec fn name_or_unknown(name: Option<Seq<char>>) -> Seq<char> {
    match name {
        Some(n) => n,
        None => "未知设备"@,
    }
}

/// `i` is the first IPv4 address of `addrs`.
pub open spec fn is_first_v4(addrs: Seq<IpAddress>, i: int) -> bool {
    &&& 0 <= i < addrs.len()
    &&& addrs[i] is V4
    &&& forall|k: int| 0 <= k < i ==> !(#[trigger] addrs[k] is V4)
}

/// Whether `addrs` holds an IPv4 address.
pub open spec fn has_v4(addrs: Seq<IpAddress>) -> bool {
    exists|i: int| 0 <= i < addrs.len() && #[trigger] addrs[i] is V4
}

/// The first IPv4 address of `addrs`.
fn first_v4(addrs: &[IpAddress]) -> (r: Option<[u8; 4]>)
    ensures
        r is None <==> !has_v4(addrs@),
        r matches Some(ip) ==> exists|i: int| is_first_v4(addrs@, i) && addrs@[i] == IpAddress::V4(ip),
{
    let mut i: usize = 0;
    while i < addrs.len()
        invariant
            i <= addrs@.len(),
            forall|k: int| 0 <= k < i ==> !(#[trigger] addrs@[k] is V4),
        decreases addrs@.len() - i,
    {
        match addrs[i] {
            IpAddress::V4(ip) => {
                assert(is_first_v4(addrs@, i as int));
                return Some(ip);
            },
            IpAddress::V6(_) => {},
        }
        i = i + 1;
    }
    None
}

/// What the network browser reported, as plain values.
#[derive(Clone, Debug)]
pub enum BrowseEvent {
    /// A service instance was resolved: its full name, its `id` and `n`
    /// properties, its addresses and its port.
    Resolved { fullname: String, id: Option<String>, name: Option<String>, addresses: Vec<IpAddress>, port: u16 },
    /// A service instance went away.
    Removed { fullname: String },
    /// Anything else.
    Other,
}

/// What a browse event changed.
#[derive(Clone, Debug)]
pub enum BrowseOutcome {
    /// The device was seen (its record is touched and the device list redrawn).
    Seen(String),
    /// The device went away (the device list is redrawn).
    Gone(String),
    /// Nothing changed.
    Ignored,
}

/// Applies a browse event at `now`. A resolved instance without an `id`, with
/// this device's own id, or without an IPv4 address is ignored; otherwise its
/// full name is recorded for the id and the peer is recorded with its name (or
/// "未知设备"), its first IPv4 address and port, and `now`. A removed instance whose
/// full name is known is forgotten and its device dropped from the peers.
pub fn apply_browse_event(own_id: &str, names: &mut FullnameIds, peers: &mut PeerTable, ev: BrowseEvent, now: i64) -> (r:
    BrowseOutcome)
    requires
        old(peers).wf(),
    ensures
        final(peers).wf(),
        match ev {
            BrowseEvent::Resolved { fullname, id, name, addresses, port } => if id is None || id->0@ == own_id@
                || !has_v4(addresses@) {
                &&& r is Ignored
                &&& final(peers).seq() == old(peers).seq()
                &&& forall|f: Seq<char>| #[trigger] final(names).lookup(f) == old(names).lookup(f)
            } else {
                &&& r matches BrowseOutcome::Seen(x) && x@ == id->0@
                &&& final(names).lookup(fullname@) == Some(id->0@)
                &&& forall|f: Seq<char>| f != fullname@ ==> #[trigger] final(names).lookup(f) == old(names).lookup(f)
                &&& exists|p: Peer|
                    #[trigger] peer_inserted(*old(peers), *final(peers), p) && p.device_id@ == id->0@ && p.name@
                        == name_or_unknown(opt_chars(name)) && p.addr.port == port && p.last_seen_ms == now && exists|
                        i: int,
                    | #[trigger] is_first_v4(addresses@, i) && addresses@[i] == IpAddress::V4(p.addr.ip)
            },
            BrowseEvent::Removed { fullname } => {
                &&& final(names).lookup(fullname@) is None
                &&& forall|f: Seq<char>| f != fullname@ ==> #[trigger] final(names).lookup(f) == old(names).lookup(f)
                &&& match old(names).lookup(fullname@) {
                    Some(id) => r matches BrowseOutcome::Gone(x) && x@ == id && final(peers).seq() == old(
                        peers,
                    ).seq().filter(|p: Peer| p.device_id@ != id),
                    None => r is Ignored && final(peers).seq() == old(peers).seq(),
                }
            },
            BrowseEvent::Other => {
                &&& r is Ignored
                &&& final(peers).seq() == old(peers).seq()
                &&& forall|f: Seq<char>| #[trigger] final(names).lookup(f) == old(names).lookup(f)
            },
        },
{
    match ev {
        BrowseEvent::Resolved { fullname, id, name, addresses, port } => {
            let id = match id {
                Some(id) => id,
                None => {
                    return BrowseOutcome::Ignored;
                },
            };
            let own = own_id.to_owned();
            if id == own {
                return BrowseOutcome::Ignored;
            }
            let ip = match first_v4(addresses.as_slice()) {
                Some(ip) => ip,
                None => {
                    return BrowseOutcome::Ignored;
                },
            };
            let ghost name_in = name;
            let name = match name {
                Some(n) => n,
                None => {
                    proof {
                        reveal_strlit("未知设备");
                    }
                    String::from_str("未知设备")
                },
            };
            let peer = Peer { device_id: id.clone(), name, addr: PeerAddr { ip, port }, last_seen_ms: now };
            names.insert(fullname, id.clone());
            let ghost p = peer;
            peers.insert(peer);
            assert(peer_inserted(*old(peers), *peers, p));
            assert(p.name@ == name_or_unknown(opt_chars(name_in)));
            BrowseOutcome::Seen(id)
        },
        BrowseEvent::Removed { fullname } => {
            match names.remove(fullname.as_str()) {
                Some(id) => {
                    peers.remove(id.as_str());
                    proof {
                        let known = old(names).lookup(fullname@)->0;
                        assert((|p: Peer| p.device_id@ != id@) =~= (|p: Peer| p.device_id@ != known));
                    }
                    BrowseOutcome::Gone(id)
                },
                None => BrowseOutcome::Ignored,
            }
        },
        BrowseEvent::Other => BrowseOutcome::Ignored,
    }
}

} // verus!
