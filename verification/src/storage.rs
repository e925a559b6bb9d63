//! The records the history and the device list hold, the in-memory history kept
//! when history is not saved, and the time arithmetic of retention.

use vstd::prelude::*;
use crate::text::{all_ws, ascii_lower, opt_chars, opt_str};

verus! {

broadcast use vstd::string::group_string_axioms;

/// Milliseconds in a day.
pub const DAY_MS: i64 = 86_400_000;

/// How many items the in-memory history keeps.
pub const MEM_HISTORY_LIMIT: usize = 100;

/// A paired device.
#[derive(Clone, Debug)]
pub struct DeviceRecord {
    pub id: String,
    pub name: String,
    pub public_key: Vec<u8>,
    pub cert_der: Vec<u8>,
    pub send_enabled: bool,
    pub receive_enabled: bool,
    pub last_seen_at: Option<i64>,
    pub created_at: i64,
}

/// What is serialised and encrypted for each history item.
#[derive(Clone, Debug)]
pub struct StoredContent {
    pub content_type: String,
    pub text: Option<String>,
    pub html: Option<String>,
    pub alt_text: Option<String>,
}

/// One history entry.
#[derive(Clone, Debug)]
pub struct ClipboardItem {
    pub id: String,
    pub source_device_id: String,
    pub source_device_name: String,
    pub content_type: String,
    pub preview: String,
    pub content_hash: String,
    pub encrypted_content: Vec<u8>,
    pub content_size: i64,
    pub status: String,
    pub created_at: i64,
    pub expires_at: Option<i64>,
}

impl ClipboardItem {
    /// Two items with equal fields.
    pub open spec fn same_as(&self, other: &ClipboardItem) -> bool {
        &&& self.id@ == other.id@
        &&& self.source_device_id@ == other.source_device_id@
        &&& self.source_device_name@ == other.source_device_name@
        &&& self.content_type@ == other.content_type@
        &&& self.preview@ == other.preview@
        &&& self.content_hash@ == other.content_hash@
        &&& self.encrypted_content@ == other.encrypted_content@
        &&& self.content_size == other.content_size
        &&& self.status@ == other.status@
        &&& self.created_at == other.created_at
        &&& self.expires_at == other.expires_at
    }

    /// Equal fields, except the status, which is `status`.
    pub open spec fn same_but_status(&self, other: &ClipboardItem, status: Seq<char>) -> bool {
        &&& self.id@ == other.id@
        &&& self.source_device_id@ == other.source_device_id@
        &&& self.source_device_name@ == other.source_device_name@
        &&& self.content_type@ == other.content_type@
        &&& self.preview@ == other.preview@
        &&& self.content_hash@ == other.content_hash@
        &&& self.encrypted_content@ == other.encrypted_content@
        &&& self.content_size == other.content_size
        &&& self.status@ == status
        &&& self.created_at == other.created_at
        &&& self.expires_at == other.expires_at
    }

    /// A field-by-field copy.
    pub fn duplicate(&self) -> (r: ClipboardItem)
        ensures
            r.same_as(self),
    {
        ClipboardItem {
            id: self.id.clone(),
            source_device_id: self.source_device_id.clone(),
            source_device_name: self.source_device_name.clone(),
            content_type: self.content_type.clone(),
            preview: self.preview.clone(),
            content_hash: self.content_hash.clone(),
            encrypted_content: crate::bytes::to_vec(self.encrypted_content.as_slice()),
            content_size: self.content_size,
            status: self.status.clone(),
            created_at: self.created_at,
            expires_at: self.expires_at,
        }
    }
}

/// Whether two sequences of items hold equal items in the same order.
pub open spec fn same_items(a: Seq<ClipboardItem>, b: Seq<ClipboardItem>) -> bool {
    a.len() == b.len() && forall|i: int| 0 <= i < a.len() ==> (#[trigger] a[i]).same_as(&b[i])
}

/// Retention in days as used: at least one day.
pub open spec fn effective_days(retention_days: i64) -> int {
    if retention_days < 1 {
        1
    } else {
        retention_days as int
    }
}

/// `now + max(retention_days, 1)` days, when it fits in an `i64`.
pub open spec fn spec_expiry(now: i64, retention_days: i64) -> int {
    now + effective_days(retention_days) * DAY_MS
}

/// When an item received at `now` expires: `max(retention_days, 1)` days later.
pub fn expiry_time(now: i64, retention_days: i64) -> (t: i64)
    requires
        i64::MIN <= spec_expiry(now, retention_days) <= i64::MAX,
    ensures
        t == spec_expiry(now, retention_days),
{
    let days: i128 = if retention_days < 1 {
        1
    } else {
        retention_days as i128
    };
    assert(days * (DAY_MS as i128) <= 0x7fff_ffff_ffff_ffff * 86_400_000) by (nonlinear_arith)
        requires
            1 <= days <= 0x7fff_ffff_ffff_ffff,
    ;
    ((now as i128) + days * (DAY_MS as i128)) as i64
}

/// The oldest creation time kept by pruning at `now`: `max(retention_days, 1)`
/// days earlier.
pub fn retention_cutoff(now: i64, retention_days: i64) -> (t: i64)
    requires
        i64::MIN <= now - effective_days(retention_days) * DAY_MS <= i64::MAX,
    ensures
        t == now - effective_days(retention_days) * DAY_MS,
{
    let days: i128 = if retention_days < 1 {
        1
    } else {
        retention_days as i128
    };
    assert(days * (DAY_MS as i128) <= 0x7fff_ffff_ffff_ffff * 86_400_000) by (nonlinear_arith)
        requires
            1 <= days <= 0x7fff_ffff_ffff_ffff,
    ;
    ((now as i128) - days * (DAY_MS as i128)) as i64
}

/// The number of newest items pruning keeps: at least one.
pub fn max_items_kept(max_items: i64) -> (n: i64)
    ensures
        n == if max_items < 1 { 1 } else { max_items },
{
    if max_items < 1 {
        1
    } else {
        max_items
    }
}

/// The history filter `"all"`.
pub open spec fn all_filter() -> Seq<char> {
    seq!['a', 'l', 'l']
}

/// The search term and status that listing filters by: the search only when not
/// blank, the status only when neither empty nor `"all"`.
pub fn list_filters(search: Option<&str>, status: Option<&str>) -> (r: (Option<String>, Option<String>))
    ensures
        match search {
            Some(s) => if all_ws(s@) {
                r.0 is None
            } else {
                r.0 matches Some(t) && t@ == s@
            },
            None => r.0 is None,
        },
        match status {
            Some(s) => if s@.len() == 0 || s@ == all_filter() {
                r.1 is None
            } else {
                r.1 matches Some(t) && t@ == s@
            },
            None => r.1 is None,
        },
{
    let s = match search {
        Some(s) => if crate::text::is_blank(s) {
            None
        } else {
            Some(s.to_owned())
        },
        None => None,
    };
    let st = match status {
        Some(st) => {
            let owned = st.to_owned();
            proof {
                reveal_strlit("all");
            }
            let all = String::from_str("all");
            assert(all@ == all_filter());
            let eq = owned == all;
            assert(eq == (st@ == all_filter()));
            if st.is_empty() || eq {
                None
            } else {
                Some(owned)
            }
        },
        None => None,
    };
    (s, st)
}

/// The search term listing filters by (see [`list_filters`]).
pub open spec fn search_filter(search: Option<Seq<char>>) -> Option<Seq<char>> {
    match search {
        Some(s) => if all_ws(s) {
            None
        } else {
            Some(s)
        },
        None => None,
    }
}

/// The status listing filters by (see [`list_filters`]).
pub open spec fn status_filter(status: Option<Seq<char>>) -> Option<Seq<char>> {
    match status {
        Some(s) => if s.len() == 0 || s == all_filter() {
            None
        } else {
            Some(s)
        },
        None => None,
    }
}

/// `needle` occurs in `hay` at `i`, ignoring ASCII case (as `LIKE` compares).
pub open spec fn occurs_ci_at(hay: Seq<char>, needle: Seq<char>, i: int) -> bool {
    &&& 0 <= i
    &&& i + needle.len() <= hay.len()
    &&& forall|j: int| 0 <= j < needle.len() ==> ascii_lower(#[trigger] hay[i + j]) == ascii_lower(needle[j])
}

/// `needle` occurs somewhere in `hay`, ignoring ASCII case.
pub open spec fn contains_ci(hay: Seq<char>, needle: Seq<char>) -> bool {
    exists|i: int| occurs_ci_at(hay, needle, i)
}

/// Whether `item` passes the filters: its preview or its source device's name
/// contains the search term, and its status is the one asked for.
pub open spec fn item_matches(item: ClipboardItem, search: Option<Seq<char>>, status: Option<Seq<char>>) -> bool {
    &&& search matches Some(t) ==> contains_ci(item.preview@, t) || contains_ci(item.source_device_name@, t)
    &&& status matches Some(st) ==> item.status@ == st
}

/// The items of `items` that pass the filters, in order.
pub open spec fn matching(items: Seq<ClipboardItem>, search: Option<Seq<char>>, status: Option<Seq<char>>) -> Seq<
    ClipboardItem,
>
    decreases items.len(),
{
    if items.len() == 0 {
        items
    } else {
        let rest = matching(items.drop_last(), search, status);
        if item_matches(items.last(), search, status) {
            rest.push(items.last())
        } else {
            rest
        }
    }
}

/// Whether `needle` occurs in `hay`, ignoring ASCII case.
pub fn contains_ignore_ascii_case(hay: &str, needle: &str) -> (r: bool)
    ensures
        r == contains_ci(hay@, needle@),
{
    let h = crate::text::str_chars(hay);
    let n = crate::text::str_chars(needle);
    if n.len() > h.len() {
        assert(!contains_ci(hay@, needle@));
        return false;
    }
    if n.len() == 0 {
        assert(occurs_ci_at(hay@, needle@, 0));
        return true;
    }
    let hl: usize = h.len();
    let last: usize = hl - n.len();
    let mut i: usize = 0;
    while i <= last
        invariant
            h@ == hay@,
            n@ == needle@,
            0 < n@.len() <= h@.len(),
            hl == h@.len(),
            last == h@.len() - n@.len(),
            i <= last + 1,
            forall|k: int| 0 <= k < i ==> !occurs_ci_at(hay@, needle@, k),
        decreases last + 1 - i,
    {
        assert(i + n@.len() <= h@.len());
        let mut j: usize = 0;
        while j < n.len()
            invariant
                h@ == hay@,
                n@ == needle@,
                0 < n@.len() <= h@.len(),
                i <= last,
                last == h@.len() - n@.len(),
                i + n@.len() <= h@.len(),
                hl == h@.len(),
                j <= n@.len(),
                forall|jj: int| 0 <= jj < j ==> ascii_lower(#[trigger] h@[i + jj]) == ascii_lower(n@[jj]),
            ensures
                j <= n@.len(),
                forall|jj: int| 0 <= jj < j ==> ascii_lower(#[trigger] h@[i + jj]) == ascii_lower(n@[jj]),
                j < n@.len() ==> ascii_lower(h@[i + j]) != ascii_lower(n@[j as int]),
            decreases n@.len() - j,
        {
            if crate::text::to_ascii_lowercase(h[i + j]) != crate::text::to_ascii_lowercase(n[j]) {
                break;
            }
            j = j + 1;
        }
        if j == n.len() {
            assert(occurs_ci_at(hay@, needle@, i as int));
            return true;
        }
        assert(!occurs_ci_at(hay@, needle@, i as int)) by {
            assert(ascii_lower(h@[i + j]) != ascii_lower(n@[j as int]));
        }
        assert(i < last + 1);
        assert(last + 1 <= usize::MAX);
        i = i + 1;
    }
    assert(!contains_ci(hay@, needle@)) by {
        if contains_ci(hay@, needle@) {
            let k = choose|k: int| occurs_ci_at(hay@, needle@, k);
            assert(k < i);
        }
    }
    false
}

/// Whether `item` passes the filters `search` and `status` (already reduced by
/// [`list_filters`]).
pub fn matches_filters(item: &ClipboardItem, search: &Option<String>, status: &Option<String>) -> (r: bool)
    ensures
        r == item_matches(*item, opt_chars(*search), opt_chars(*status)),
{
    let found = match search {
        Some(t) => contains_ignore_ascii_case(item.preview.as_str(), t.as_str())
            || contains_ignore_ascii_case(item.source_device_name.as_str(), t.as_str()),
        None => true,
    };
    let status_ok = match status {
        Some(st) => item.status == *st,
        None => true,
    };
    found && status_ok
}

/// History items kept in memory when history is not saved, newest first.
pub struct MemHistory {
    items: Vec<ClipboardItem>,
}

impl MemHistory {
    /// The items, newest first.
    pub closed spec fn view(&self) -> Seq<ClipboardItem> {
        self.items@
    }

    /// No items.
    pub fn new() -> (r: MemHistory)
        ensures
            r.view().len() == 0,
    {
        MemHistory { items: Vec::new() }
    }

    /// The items, newest first.
    pub fn items(&self) -> (r: &Vec<ClipboardItem>)
        ensures
            r@ == self.view(),
    {
        &self.items
    }

    /// Adds `item` in front and keeps at most [`MEM_HISTORY_LIMIT`] items.
    pub fn push_front(&mut self, item: ClipboardItem)
        ensures
            final(self).view() == (seq![item] + old(self).view()).take(
                if old(self).view().len() + 1 <= MEM_HISTORY_LIMIT {
                    old(self).view().len() as int + 1
                } else {
                    MEM_HISTORY_LIMIT as int
                },
            ),
    {
        let ghost before = self.items@;
        self.items.insert(0, item);
        assert(self.items@ =~= seq![item] + before);
        self.items.truncate(MEM_HISTORY_LIMIT);
    }

    /// A copy of the first item with id `id`.
    pub fn find(&self, id: &str) -> (r: Option<ClipboardItem>)
        ensures
            r matches Some(it) ==> exists|i: int|
                0 <= i < self.view().len() && self.view()[i].id@ == id@ && it.same_as(
                    &self.view()[i],
                ) && forall|j: int| 0 <= j < i ==> #[trigger] self.view()[j].id@ != id@,
            r is None ==> forall|i: int| 0 <= i < self.view().len() ==> #[trigger] self.view()[i].id@ != id@,
    {
        let key = id.to_owned();
        let mut i: usize = 0;
        while i < self.items.len()
            invariant
                key@ == id@,
                i <= self.items@.len(),
                forall|j: int| 0 <= j < i ==> #[trigger] self.items@[j].id@ != id@,
            decreases self.items@.len() - i,
        {
            if self.items[i].id == key {
                return Some(self.items[i].duplicate());
            }
            i = i + 1;
        }
        None
    }

    /// Sets the status of the first item with id `id`, if any.
    pub fn set_status(&mut self, id: &str, status: &str)
        ensures
            final(self).view().len() == old(self).view().len(),
            (forall|i: int| 0 <= i < old(self).view().len() ==> #[trigger] old(self).view()[i].id@ != id@)
                ==> final(self).view() == old(self).view(),
            forall|i: int|
                0 <= i < old(self).view().len() && old(self).view()[i].id@ == id@ && (forall|j: int|
                    0 <= j < i ==> #[trigger] old(self).view()[j].id@ != id@) ==> {
                    &&& (#[trigger] final(self).view()[i]).same_but_status(&old(self).view()[i], status@)
                    &&& forall|k: int| 0 <= k < old(self).view().len() && k != i ==> #[trigger] final(self).view()[k] == old(self).view()[k]
                },
    {
        let key = id.to_owned();
        let mut i: usize = 0;
        while i < self.items.len()
            invariant
                key@ == id@,
                i <= self.items@.len(),
                self.items@ == old(self).items@,
                forall|j: int| 0 <= j < i ==> #[trigger] self.items@[j].id@ != id@,
            decreases self.items@.len() - i,
        {
            if self.items[i].id == key {
                let mut it = self.items[i].duplicate();
                it.status = status.to_owned();
                self.items.set(i, it);
                return;
            }
            i = i + 1;
        }
    }

    /// Removes every item with id `id`.
    pub fn remove_id(&mut self, id: &str)
        ensures
            final(self).view() == old(self).view().filter(|it: ClipboardItem| it.id@ != id@),
    {
        let key = id.to_owned();
        let ghost before = self.items@;
        let ghost pred = |it: ClipboardItem| it.id@ != id@;
        let ghost mut k: int = 0;
        let mut i: usize = 0;
        assert(before.take(0).filter(pred) =~= Seq::<ClipboardItem>::empty());
        assert(before.skip(0) =~= before);
        while i < self.items.len()
            invariant
                key@ == id@,
                pred == (|it: ClipboardItem| it.id@ != id@),
                0 <= k <= before.len(),
                self.items@ == before.take(k).filter(pred) + before.skip(k),
                i == before.take(k).filter(pred).len(),
            decreases before.len() - k,
        {
            proof {
                assert(self.items@[i as int] == before[k]);
                assert(before.take(k + 1).drop_last() =~= before.take(k));
                reveal_with_fuel(Seq::filter, 1);
            }
            let ghost f = before.take(k).filter(pred);
            proof {
                assert(before.skip(k) =~= seq![before[k]] + before.skip(k + 1));
            }
            if self.items[i].id == key {
                self.items.remove(i);
                proof {
                    assert(before[k].id@ == id@);
                    assert(!pred(before[k]));
                    assert(before.take(k + 1).filter(pred) == f);
                    assert(self.items@ =~= f + before.skip(k + 1));
                    k = k + 1;
                }
            } else {
                proof {
                    assert(pred(before[k]));
                    assert(before.take(k + 1).filter(pred) == f.push(before[k]));
                    assert(self.items@ =~= f.push(before[k]) + before.skip(k + 1));
                    k = k + 1;
                }
                i = i + 1;
            }
        }
        proof {
            assert(before.skip(k).len() == 0);
            assert(k == before.len());
            assert(before.take(k) =~= before);
            assert(self.items@ =~= before.filter(pred));
        }
    }

    /// Removes every item.
    pub fn clear(&mut self)
        ensures
            final(self).view().len() == 0,
    {
        self.items.clear();
    }

    /// Whether an item with hash `hash` was created less than `window`
    /// milliseconds before `now`.
    pub fn seen_within(&self, hash: &str, now: i64, window: i64) -> (r: bool)
        ensures
            r == exists|i: int|
                0 <= i < self.view().len() && (#[trigger] self.view()[i]).content_hash@ == hash@ && now
                    - self.view()[i].created_at < window,
    {
        let key = hash.to_owned();
        let mut i: usize = 0;
        while i < self.items.len()
            invariant
                key@ == hash@,
                i <= self.items@.len(),
                forall|j: int|
                    0 <= j < i ==> !((#[trigger] self.items@[j]).content_hash@ == hash@ && now
                        - self.items@[j].created_at < window),
            decreases self.items@.len() - i,
        {
            if self.items[i].content_hash == key && (now as i128) - (self.items[i].created_at as i128)
                < (window as i128) {
                return true;
            }
            i = i + 1;
        }
        false
    }
}

} // verus!
