//! What the user interface is shown and what its commands change: history and
//! device views, item content, settings updates.

use vstd::prelude::*;
use crate::clipboard::{ClipContent, kind_text, spec_content_hash};
use crate::discovery::{spec_addr_text, Peer, PeerTable};
use crate::state::Settings;
use crate::storage::{
    list_filters, matches_filters, matching, search_filter, status_filter, ClipboardItem, DeviceRecord, MemHistory,
    StoredContent,
};
use crate::text::{normalize_newlines, opt_chars, opt_str, trim_both};

verus! {

broadcast use vstd::string::group_string_axioms;

/// How many history entries are listed.
pub const HISTORY_LIMIT: usize = 500;

/// A history entry as listed.
#[derive(Clone, Debug)]
pub struct HistoryItemView {
    pub id: String,
    pub source_device_id: String,
    pub source_device_name: String,
    pub content_type: String,
    pub preview: String,
    pub content_size: i64,
    pub status: String,
    pub created_at: i64,
    pub expires_at: Option<i64>,
    /// Whether the item is saved (`false`: kept in memory only).
    pub persistent: bool,
}

impl HistoryItemView {
    /// The view shows `item`, saved or not as `persistent` says.
    pub open spec fn shows(&self, item: &ClipboardItem, persistent: bool) -> bool {
        &&& self.id@ == item.id@
        &&& self.source_device_id@ == item.source_device_id@
        &&& self.source_device_name@ == item.source_device_name@
        &&& self.content_type@ == item.content_type@
        &&& self.preview@ == item.preview@
        &&& self.content_size == item.content_size
        &&& self.status@ == item.status@
        &&& self.created_at == item.created_at
        &&& self.expires_at == item.expires_at
        &&& self.persistent == persistent
    }
}

/// The listed view of a saved history item.
pub fn item_view(item: &ClipboardItem) -> (v: HistoryItemView)
    ensures
        v.shows(item, true),
{
    HistoryItemView {
        id: item.id.clone(),
        source_device_id: item.source_device_id.clone(),
        source_device_name: item.source_device_name.clone(),
        content_type: item.content_type.clone(),
        preview: item.preview.clone(),
        content_size: item.content_size,
        status: item.status.clone(),
        created_at: item.created_at,
        expires_at: item.expires_at,
        persistent: true,
    }
}

/// A device as listed: paired devices and devices seen on the network.
#[derive(Clone, Debug)]
pub struct DeviceView {
    pub device_id: String,
    pub name: String,
    pub online: bool,
    pub paired: bool,
    pub send_enabled: bool,
    pub receive_enabled: bool,
    pub last_seen_at: Option<i64>,
    pub address: Option<String>,
}

/// The settings as shown and edited.
#[derive(Clone, Debug)]
pub struct SettingsView {
    pub device_name: String,
    pub watch_enabled: bool,
    pub notify_preview: bool,
    pub system_notification: bool,
    pub save_history: bool,
    pub retention_days: i64,
    pub max_items: i64,
    pub autostart: bool,
}

/// This device.
#[derive(Clone, Debug)]
pub struct OwnInfo {
    pub device_id: String,
    pub device_name: String,
    pub version: String,
}

/// Everything the main window shows about devices and settings.
#[derive(Clone, Debug)]
pub struct StateView {
    pub own: OwnInfo,
    pub settings: SettingsView,
    pub devices: Vec<DeviceView>,
}

/// The decrypted content of a history item.
#[derive(Clone, Debug)]
pub struct ContentView {
    pub content_type: String,
    pub text: String,
    pub html: Option<String>,
}

/// The settings as shown, with the current autostart state.
pub fn settings_view(s: &Settings, autostart: bool) -> (v: SettingsView)
    ensures
        v.device_name@ == s.device_name@,
        v.watch_enabled == s.watch_enabled,
        v.notify_preview == s.notify_preview,
        v.system_notification == s.system_notification,
        v.save_history == s.save_history,
        v.retention_days == s.retention_days,
        v.max_items == s.max_items,
        v.autostart == autostart,
{
    SettingsView {
        device_name: s.device_name.clone(),
        watch_enabled: s.watch_enabled,
        notify_preview: s.notify_preview,
        system_notification: s.system_notification,
        save_history: s.save_history,
        retention_days: s.retention_days,
        max_items: s.max_items,
        autostart,
    }
}

/// Whether some device in `devices` has id `id`.
pub open spec fn is_paired_id(devices: Seq<DeviceRecord>, id: Seq<char>) -> bool {
    exists|i: int| 0 <= i < devices.len() && #[trigger] devices[i].id@ == id
}

/// The peers that are not paired, in table order.
pub open spec fn unpaired_peers(devices: Seq<DeviceRecord>, peers: Seq<Peer>) -> Seq<Peer> {
    peers.filter(|p: Peer| !is_paired_id(devices, p.device_id@))
}

/// How a paired device is listed, given the peer table.
pub open spec fn shows_paired(v: DeviceView, d: DeviceRecord, peers: PeerTable) -> bool {
    &&& v.device_id@ == d.id@
    &&& v.name@ == d.name@
    &&& v.online == peers.has(d.id@)
    &&& v.paired
    &&& v.send_enabled == d.send_enabled
    &&& v.receive_enabled == d.receive_enabled
    &&& v.last_seen_at == d.last_seen_at
    &&& if peers.has(d.id@) {
        v.address matches Some(a) && exists|j: int|
            0 <= j < peers.seq().len() && peers.seq()[j].device_id@ == d.id@ && a@ == spec_addr_text(
                peers.seq()[j].addr,
            )
    } else {
        v.address is None
    }
}

/// How an unpaired peer is listed.
pub open spec fn shows_unpaired(v: DeviceView, p: Peer) -> bool {
    &&& v.device_id@ == p.device_id@
    &&& v.name@ == p.name@
    &&& v.online
    &&& !v.paired
    &&& !v.send_enabled
    &&& !v.receive_enabled
    &&& v.last_seen_at == Some(p.last_seen_ms)
    &&& v.address matches Some(a) && a@ == spec_addr_text(p.addr)
}

fn paired_id(devices: &[DeviceRecord], id: &String) -> (r: bool)
    ensures
        r == is_paired_id(devices@, id@),
{
    let mut i: usize = 0;
    while i < devices.len()
        invariant
            i <= devices@.len(),
            forall|j: int| 0 <= j < i ==> #[trigger] devices@[j].id@ != id@,
        decreases devices@.len() - i,
    {
        if devices[i].id == *id {
            return true;
        }
        i = i + 1;
    }
    false
}

/// The device list: every paired device in order (online when seen on the
/// network, with its address), then every seen peer that is not paired.
pub fn device_views(devices: &[DeviceRecord], peers: &PeerTable) -> (r: Vec<DeviceView>)
    requires
        peers.wf(),
    ensures
        r@.len() == devices@.len() + unpaired_peers(devices@, peers.seq()).len(),
        forall|k: int| 0 <= k < devices@.len() ==> shows_paired(#[trigger] r@[k], devices@[k], *peers),
        forall|k: int|
            0 <= k < unpaired_peers(devices@, peers.seq()).len() ==> shows_unpaired(
                #[trigger] r@[devices@.len() + k],
                unpaired_peers(devices@, peers.seq())[k],
            ),
{
    let mut out: Vec<DeviceView> = Vec::new();
    let mut i: usize = 0;
    while i < devices.len()
        invariant
            peers.wf(),
            i <= devices@.len(),
            out@.len() == i,
            forall|k: int| 0 <= k < i ==> shows_paired(#[trigger] out@[k], devices@[k], *peers),
        decreases devices@.len() - i,
    {
        let d = &devices[i];
        let peer = peers.get(d.id.as_str());
        let (online, address) = match peer {
            Some(p) => (true, Some(crate::discovery::addr_text(&p.addr))),
            None => (false, None),
        };
        out.push(
            DeviceView {
                device_id: d.id.clone(),
                name: d.name.clone(),
                online,
                paired: true,
                send_enabled: d.send_enabled,
                receive_enabled: d.receive_enabled,
                last_seen_at: d.last_seen_at,
                address,
            },
        );
        proof {
            if peer is Some {
                let p = peer->0;
                let j = choose|j: int| 0 <= j < peers.seq().len() && peers.seq()[j] == *p;
                assert(peers.seq()[j].device_id@ == d.id@);
                assert(peers.has(d.id@));
            }
        }
        i = i + 1;
    }
    let ps = peers.entries();
    let ghost pred = |p: Peer| !is_paired_id(devices@, p.device_id@);
    let mut j: usize = 0;
    while j < ps.len()
        invariant
            ps@ == peers.seq(),
            pred == (|p: Peer| !is_paired_id(devices@, p.device_id@)),
            j <= ps@.len(),
            out@.len() == devices@.len() + ps@.take(j as int).filter(pred).len(),
            forall|k: int| 0 <= k < devices@.len() ==> shows_paired(#[trigger] out@[k], devices@[k], *peers),
            forall|k: int|
                0 <= k < ps@.take(j as int).filter(pred).len() ==> shows_unpaired(
                    #[trigger] out@[devices@.len() + k],
                    ps@.take(j as int).filter(pred)[k],
                ),
        decreases ps@.len() - j,
    {
        let p = &ps[j];
        let ghost before = out@;
        proof {
            assert(ps@.take(j + 1).drop_last() =~= ps@.take(j as int));
            reveal_with_fuel(Seq::filter, 1);
        }
        if !paired_id(devices, &p.device_id) {
            out.push(
                DeviceView {
                    device_id: p.device_id.clone(),
                    name: p.name.clone(),
                    online: true,
                    paired: false,
                    send_enabled: false,
                    receive_enabled: false,
                    last_seen_at: Some(p.last_seen_ms),
                    address: Some(crate::discovery::addr_text(&p.addr)),
                },
            );
            proof {
                assert(pred(ps@[j as int]));
                assert(ps@.take(j + 1).filter(pred) == ps@.take(j as int).filter(pred).push(ps@[j as int]));
                assert forall|k: int| 0 <= k < devices@.len() implies shows_paired(#[trigger] out@[k], devices@[k], *peers) by {
                    assert(out@[k] == before[k]);
                }
                assert forall|k: int|
                    0 <= k < ps@.take(j + 1).filter(pred).len() implies shows_unpaired(
                        #[trigger] out@[devices@.len() + k],
                        ps@.take(j + 1).filter(pred)[k],
                    ) by {
                    if k < ps@.take(j as int).filter(pred).len() {
                        assert(out@[devices@.len() + k] == before[devices@.len() + k]);
                    }
                }
            }
        } else {
            proof {
                assert(!pred(ps@[j as int]));
                assert(ps@.take(j + 1).filter(pred) == ps@.take(j as int).filter(pred));
            }
        }
        j = j + 1;
    }
    proof {
        assert(ps@.take(ps@.len() as int) =~= ps@);
    }
    out
}

/// Whether `p` lists the indices `0..keys.len()` in the order of a stable sort by
/// descending key: each index once, larger keys first, equal keys in index order.
pub open spec fn is_stable_desc_order(keys: Seq<i64>, p: Seq<int>) -> bool {
    &&& p.len() == keys.len()
    &&& forall|a: int| 0 <= a < p.len() ==> 0 <= #[trigger] p[a] < keys.len()
    &&& forall|a: int, b: int| 0 <= a < b < p.len() ==> #[trigger] p[a] != #[trigger] p[b]
    &&& forall|a: int, b: int|
        0 <= a < b < p.len() ==> keys[#[trigger] p[a]] > keys[#[trigger] p[b]] || (keys[p[a]] == keys[p[b]]
            && p[a] < p[b])
}

/// The indices of `keys` in the order of a stable sort by descending key.
pub fn stable_desc_order(keys: &[i64]) -> (p: Vec<usize>)
    ensures
        is_stable_desc_order(keys@, p@.map_values(|x: usize| x as int)),
{
    let mut p: Vec<usize> = Vec::new();
    let mut i: usize = 0;
    while i < keys.len()
        invariant
            i <= keys@.len(),
            p@.len() == i,
            forall|a: int| 0 <= a < p@.len() ==> #[trigger] p@[a] < i,
            forall|a: int, b: int| 0 <= a < b < p@.len() ==> #[trigger] p@[a] != #[trigger] p@[b],
            forall|a: int, b: int|
                0 <= a < b < p@.len() ==> keys@[#[trigger] p@[a] as int] > keys@[#[trigger] p@[b] as int] || (
                keys@[p@[a] as int] == keys@[p@[b] as int] && p@[a] < p@[b]),
        decreases keys@.len() - i,
    {
        let k = keys[i];
        let mut pos: usize = 0;
        while pos < p.len() && keys[p[pos]] >= k
            invariant
                i < keys@.len(),
                k == keys@[i as int],
                p@.len() == i,
                pos <= p@.len(),
                forall|a: int| 0 <= a < p@.len() ==> #[trigger] p@[a] < i,
                forall|a: int| 0 <= a < pos ==> keys@[#[trigger] p@[a] as int] >= k,
            decreases p@.len() - pos,
        {
            pos = pos + 1;
        }
        let ghost before = p@;
        proof {
            assert forall|a: int| pos <= a < before.len() implies keys@[#[trigger] before[a] as int] < k by {
                if pos < before.len() {
                    assert(keys@[before[pos as int] as int] < k);
                    if a > pos {
                        assert(keys@[before[pos as int] as int] > keys@[before[a] as int] || keys@[before[pos as int] as int] == keys@[before[a] as int]);
                    }
                }
            }
        }
        p.insert(pos, i);
        proof {
            assert forall|a: int| 0 <= a < p@.len() implies #[trigger] p@[a] < i + 1 by {
                if a < pos {
                    assert(p@[a] == before[a]);
                } else if a > pos {
                    assert(p@[a] == before[a - 1]);
                }
            }
            assert forall|a: int, b: int| 0 <= a < b < p@.len() implies #[trigger] p@[a] != #[trigger] p@[b] && (keys@[p@[a] as int] > keys@[p@[b] as int] || (
                keys@[p@[a] as int] == keys@[p@[b] as int] && p@[a] < p@[b])) by {
                let a0 = if a < pos { a } else { a - 1 };
                let b0 = if b < pos { b } else { b - 1 };
                if a == pos {
                    assert(p@[b] == before[b0]);
                    assert(keys@[before[b0] as int] < k);
                } else if b == pos {
                    assert(p@[a] == before[a0]);
                    assert(keys@[before[a0] as int] >= k);
                    assert(before[a0] < i);
                } else {
                    assert(p@[a] == before[a0]);
                    assert(p@[b] == before[b0]);
                    assert(a0 < b0);
                }
            }
        }
        i = i + 1;
    }
    proof {
        let q = p@.map_values(|x: usize| x as int);
        assert forall|a: int| 0 <= a < q.len() implies 0 <= #[trigger] q[a] < keys@.len() by {
            assert(q[a] == p@[a] as int);
        }
        assert forall|a: int, b: int| 0 <= a < b < q.len() implies #[trigger] q[a] != #[trigger] q[b] by {
            assert(q[a] == p@[a] as int && q[b] == p@[b] as int);
        }
        assert forall|a: int, b: int|
            0 <= a < b < q.len() implies keys@[#[trigger] q[a]] > keys@[#[trigger] q[b]] || (keys@[q[a]] == keys@[q[b]]
                && q[a] < q[b]) by {
            assert(q[a] == p@[a] as int && q[b] == p@[b] as int);
        }
    }
    p
}

fn duplicate_view(v: &HistoryItemView) -> (r: HistoryItemView)
    ensures
        r.id@ == v.id@,
        r.source_device_id@ == v.source_device_id@,
        r.source_device_name@ == v.source_device_name@,
        r.content_type@ == v.content_type@,
        r.preview@ == v.preview@,
        r.content_size == v.content_size,
        r.status@ == v.status@,
        r.created_at == v.created_at,
        r.expires_at == v.expires_at,
        r.persistent == v.persistent,
{
    HistoryItemView {
        id: v.id.clone(),
        source_device_id: v.source_device_id.clone(),
        source_device_name: v.source_device_name.clone(),
        content_type: v.content_type.clone(),
        preview: v.preview.clone(),
        content_size: v.content_size,
        status: v.status.clone(),
        created_at: v.created_at,
        expires_at: v.expires_at,
        persistent: v.persistent,
    }
}

/// The item a history view stands for: the `k`-th saved item, or after them the
/// in-memory items.
pub open spec fn listed_item(stored: Seq<ClipboardItem>, mem: Seq<ClipboardItem>, k: int) -> ClipboardItem {
    if k < stored.len() {
        stored[k]
    } else {
        mem[k - stored.len()]
    }
}

/// The creation times of the saved items followed by the in-memory items.
pub open spec fn listed_keys(stored: Seq<ClipboardItem>, mem: Seq<ClipboardItem>) -> Seq<i64> {
    Seq::new(stored.len() + mem.len(), |k: int| listed_item(stored, mem, k).created_at)
}

/// The in-memory items that pass the list filters made of `search` and `status`.
pub open spec fn mem_listed(mem: Seq<ClipboardItem>, search: Option<Seq<char>>, status: Option<Seq<char>>) -> Seq<
    ClipboardItem,
> {
    matching(mem, search_filter(search), status_filter(status))
}

/// The history list. `stored` are the saved items the store listed for `search`
/// and `status`. With history saved: those items as given. Otherwise the saved
/// items and then the in-memory items that pass the same filters (marked not
/// persistent), stably sorted newest first, and cut to 500.
pub fn history_views(
    stored: &[ClipboardItem],
    mem: &MemHistory,
    save_history: bool,
    search: Option<&str>,
    status: Option<&str>,
) -> (r: Vec<HistoryItemView>)
    requires
        stored@.len() + mem.view().len() <= usize::MAX,
    ensures
        save_history ==> r@.len() == stored@.len() && forall|k: int|
            0 <= k < stored@.len() ==> (#[trigger] r@[k]).shows(&stored@[k], true),
        !save_history ==> {
            let m = mem_listed(mem.view(), opt_str(search), opt_str(status));
            exists|p: Seq<int>|
                #[trigger] is_stable_desc_order(listed_keys(stored@, m), p) && r@.len() == (if p.len()
                    <= HISTORY_LIMIT {
                    p.len() as int
                } else {
                    HISTORY_LIMIT as int
                }) && forall|k: int|
                    0 <= k < r@.len() ==> (#[trigger] r@[k]).shows(&listed_item(stored@, m, p[k]), p[k] < stored@.len())
        },
{
    let mut items: Vec<HistoryItemView> = Vec::new();
    let mut i: usize = 0;
    while i < stored.len()
        invariant
            i <= stored@.len(),
            items@.len() == i,
            forall|k: int| 0 <= k < i ==> (#[trigger] items@[k]).shows(&stored@[k], true),
        decreases stored@.len() - i,
    {
        items.push(item_view(&stored[i]));
        i = i + 1;
    }
    if save_history {
        return items;
    }
    let (sf, stf) = list_filters(search, status);
    let ghost fs = search_filter(opt_str(search));
    let ghost fst = status_filter(opt_str(status));
    assert(opt_chars(sf) == fs && opt_chars(stf) == fst);
    let ghost m = mem_listed(mem.view(), opt_str(search), opt_str(status));
    let mem_items = mem.items();
    let mut j: usize = 0;
    while j < mem_items.len()
        invariant
            mem_items@ == mem.view(),
            opt_chars(sf) == fs,
            opt_chars(stf) == fst,
            stored@.len() + mem.view().len() <= usize::MAX,
            j <= mem_items@.len(),
            items@.len() == stored@.len() + matching(mem.view().take(j as int), fs, fst).len(),
            matching(mem.view().take(j as int), fs, fst).len() <= j,
            forall|k: int| 0 <= k < items@.len() ==> (#[trigger] items@[k]).shows(
                &listed_item(stored@, matching(mem.view().take(j as int), fs, fst), k),
                k < stored@.len(),
            ),
        decreases mem_items@.len() - j,
    {
        let ghost pre = matching(mem.view().take(j as int), fs, fst);
        assert(mem.view().take(j + 1).drop_last() =~= mem.view().take(j as int));
        assert(mem.view().take(j + 1).last() == mem.view()[j as int]);
        if matches_filters(&mem_items[j], &sf, &stf) {
            let mut v = item_view(&mem_items[j]);
            v.persistent = false;
            items.push(v);
            proof {
                let post = matching(mem.view().take(j + 1), fs, fst);
                assert(post == pre.push(mem.view()[j as int]));
                assert forall|k: int| 0 <= k < items@.len() implies (#[trigger] items@[k]).shows(
                    &listed_item(stored@, post, k),
                    k < stored@.len(),
                ) by {
                    if k < items@.len() - 1 {
                        assert(listed_item(stored@, post, k) == listed_item(stored@, pre, k));
                    }
                }
            }
        } else {
            proof {
                let post = matching(mem.view().take(j + 1), fs, fst);
                assert(post == pre);
            }
        }
        j = j + 1;
    }
    assert(mem.view().take(mem.view().len() as int) =~= mem.view());
    assert(matching(mem.view().take(j as int), fs, fst) == m);
    let mut keys: Vec<i64> = Vec::new();
    let mut t: usize = 0;
    while t < items.len()
        invariant
            t <= items@.len(),
            items@.len() == stored@.len() + m.len(),
            forall|k: int| 0 <= k < items@.len() ==> (#[trigger] items@[k]).shows(
                &listed_item(stored@, m, k),
                k < stored@.len(),
            ),
            keys@.len() == t,
            forall|k: int| 0 <= k < t ==> keys@[k] == (#[trigger] items@[k]).created_at,
        decreases items@.len() - t,
    {
        keys.push(items[t].created_at);
        t = t + 1;
    }
    proof {
        assert forall|k: int| 0 <= k < keys@.len() implies keys@[k] == listed_keys(stored@, m)[k] by {
            assert(items@[k].shows(&listed_item(stored@, m, k), k < stored@.len()));
        }
        assert(keys@ =~= listed_keys(stored@, m));
    }
    let order = stable_desc_order(keys.as_slice());
    let ghost p = order@.map_values(|x: usize| x as int);
    let mut out: Vec<HistoryItemView> = Vec::new();
    let mut c: usize = 0;
    while c < order.len() && c < HISTORY_LIMIT
        invariant
            order@.len() == items@.len(),
            p == order@.map_values(|x: usize| x as int),
            is_stable_desc_order(keys@, p),
            keys@ == listed_keys(stored@, m),
            p.len() == order@.len(),
            c <= order@.len(),
            c <= HISTORY_LIMIT,
            out@.len() == c,
            forall|k: int| 0 <= k < items@.len() ==> (#[trigger] items@[k]).shows(
                &listed_item(stored@, m, k),
                k < stored@.len(),
            ),
            forall|k: int| 0 <= k < c ==> (#[trigger] out@[k]).shows(
                &listed_item(stored@, m, p[k]),
                p[k] < stored@.len(),
            ),
        decreases order@.len() - c,
    {
        assert(p[c as int] == order@[c as int] as int);
        out.push(duplicate_view(&items[order[c]]));
        c = c + 1;
    }
    proof {
        assert(is_stable_desc_order(listed_keys(stored@, m), p));
        assert(out@.len() == (if p.len() <= HISTORY_LIMIT { p.len() as int } else { HISTORY_LIMIT as int }));
    }
    out
}

/// The content shown for a decrypted item: its text, else its alternative text,
/// else nothing; its HTML when it has any.
pub fn content_view(stored: StoredContent) -> (v: ContentView)
    ensures
        v.content_type@ == stored.content_type@,
        v.text@ == match stored.text {
            Some(t) => t@,
            None => match stored.alt_text {
                Some(a) => a@,
                None => Seq::<char>::empty(),
            },
        },
        opt_chars(v.html) == opt_chars(stored.html),
{
    let text = match stored.text {
        Some(t) => t,
        None => match stored.alt_text {
            Some(a) => a,
            None => String::new(),
        },
    };
    ContentView { content_type: stored.content_type, text, html: stored.html }
}

/// What accepting a history item writes to the clipboard, and the hash its
/// write is suppressed under: the text (else the alternative text) and the HTML;
/// the hash of the normalised text (empty when there is none).
pub fn accept_content(stored: &StoredContent) -> (r: (ClipContent, String))
    ensures
        opt_chars(r.0.text) == match stored.text {
            Some(t) => Some(t@),
            None => opt_chars(stored.alt_text),
        },
        opt_chars(r.0.html) == opt_chars(stored.html),
        r.1@ == spec_content_hash(
            kind_text(),
            normalize_newlines(
                match opt_chars(r.0.text) {
                    Some(t) => t,
                    None => Seq::<char>::empty(),
                },
            ),
        ),
{
    let text: Option<String> = match &stored.text {
        Some(t) => Some(t.clone()),
        None => match &stored.alt_text {
            Some(a) => Some(a.clone()),
            None => None,
        },
    };
    let html: Option<String> = match &stored.html {
        Some(h) => Some(h.clone()),
        None => None,
    };
    let plain: String = match &text {
        Some(t) => t.clone(),
        None => String::new(),
    };
    let kind = crate::clipboard::text_kind();
    let normalized = crate::clipboard::normalized_text(plain.as_str());
    let hash = crate::clipboard::content_hash(kind.as_str(), normalized.as_str());
    (ClipContent { text, html }, hash)
}

/// Why a settings update was refused.
#[derive(Clone, Copy, Debug, PartialEq, Eq, Structural)]
pub enum SettingsError {
    /// The device name is blank.
    EmptyDeviceName,
}

impl SettingsError {
    /// The message the application shows for this error.
    pub fn message(&self) -> (s: &'static str)
        ensures
            s@ == "设备名称不能为空"@,
    {
        match self {
            SettingsError::EmptyDeviceName => "设备名称不能为空",
        }
    }
}

/// An accepted settings update.
#[derive(Clone, Debug)]
pub struct SettingsChange {
    pub settings: Settings,
    /// The device name changed (the network announcement is renewed).
    pub name_changed: bool,
    /// Watching was switched on or off (the tray is updated).
    pub watch_changed: bool,
}

/// `v` limited to `lo..=hi`.
pub open spec fn clamp(v: i64, lo: i64, hi: i64) -> i64 {
    if v < lo {
        lo
    } else if v > hi {
        hi
    } else {
        v
    }
}

fn clamp_i64(v: i64, lo: i64, hi: i64) -> (r: i64)
    requires
        lo <= hi,
    ensures
        r == clamp(v, lo, hi),
{
    if v < lo {
        lo
    } else if v > hi {
        hi
    } else {
        v
    }
}

/// Applies the settings the user submitted: the device name is trimmed and must
/// not be empty; retention is limited to 1..=90 days and the item limit to
/// 10..=10000; the flags are taken as given.
pub fn apply_settings_update(current: &Settings, view: &SettingsView) -> (r: Result<SettingsChange, SettingsError>)
    ensures
        trim_both(view.device_name@, false).len() == 0 ==> r == Err::<SettingsChange, SettingsError>(
            SettingsError::EmptyDeviceName,
        ),
        trim_both(view.device_name@, false).len() != 0 ==> (r matches Ok(c) && {
            &&& c.settings.device_name@ == trim_both(view.device_name@, false)
            &&& c.settings.watch_enabled == view.watch_enabled
            &&& c.settings.notify_preview == view.notify_preview
            &&& c.settings.system_notification == view.system_notification
            &&& c.settings.save_history == view.save_history
            &&& c.settings.retention_days == clamp(view.retention_days, 1, 90)
            &&& c.settings.max_items == clamp(view.max_items, 10, 10_000)
            &&& c.name_changed == (trim_both(view.device_name@, false) != current.device_name@)
            &&& c.watch_changed == (view.watch_enabled != current.watch_enabled)
        }),
{
    let name = crate::text::trim_str(view.device_name.as_str());
    if name.as_str().is_empty() {
        return Err(SettingsError::EmptyDeviceName);
    }
    let name_changed = !(name == current.device_name);
    let watch_changed = view.watch_enabled != current.watch_enabled;
    let settings = Settings {
        device_name: name,
        watch_enabled: view.watch_enabled,
        notify_preview: view.notify_preview,
        system_notification: view.system_notification,
        save_history: view.save_history,
        retention_days: clamp_i64(view.retention_days, 1, 90),
        max_items: clamp_i64(view.max_items, 10, 10_000),
    };
    Ok(SettingsChange { settings, name_changed, watch_changed })
}

} // verus!
