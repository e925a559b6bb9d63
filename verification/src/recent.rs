//! Time-stamped key sets used to break clipboard echo loops and to drop
//! duplicates: recently copied or sent content hashes, processed message ids, and
//! hashes whose clipboard changes are suppressed until a deadline.

use vstd::prelude::*;

verus! {

/// How long an entry is kept by [`TimedKeys::recent_contains`] and
/// [`TimedKeys::recent_put`], in milliseconds (ten minutes).
pub const RECENT_HORIZON_MS: i64 = 600_000;

/// A map from string keys to millisecond timestamps.
pub struct TimedKeys {
    entries: Vec<(String, i64)>,
}

/// Whether an entry stamped `t` is still kept at `now` (it is younger than the horizon).
pub open spec fn kept_at(now: i64, t: i64) -> bool {
    now - t < RECENT_HORIZON_MS
}

/// The map after dropping every entry no longer kept at `now`.
pub open spec fn spec_expire(m: Map<Seq<char>, i64>, now: i64) -> Map<Seq<char>, i64> {
    Map::new(|k: Seq<char>| m.contains_key(k) && kept_at(now, m[k]), |k: Seq<char>| m[k])
}

/// What `recent_contains(key, now, window)` answers for map `m`.
pub open spec fn spec_recent_contains(m: Map<Seq<char>, i64>, key: Seq<char>, now: i64, window: i64) -> bool {
    let e = spec_expire(m, now);
    e.contains_key(key) && now - e[key] < window
}

/// The map after `recent_put(key, now)`.
pub open spec fn spec_recent_put(m: Map<Seq<char>, i64>, key: Seq<char>, now: i64) -> Map<Seq<char>, i64> {
    spec_expire(m, now).insert(key, now)
}

/// The map after dropping every deadline that is not after `now`.
pub open spec fn spec_expire_deadlines(m: Map<Seq<char>, i64>, now: i64) -> Map<Seq<char>, i64> {
    Map::new(|k: Seq<char>| m.contains_key(k) && m[k] > now, |k: Seq<char>| m[k])
}

impl TimedKeys {
    spec fn has_key_at(self, k: Seq<char>, i: int) -> bool {
        0 <= i < self.entries@.len() && self.entries@[i].0@ == k
    }

    /// No key occurs twice.
    pub closed spec fn wf(self) -> bool {
        forall|i: int, j: int|
            0 <= i < j < self.entries@.len() ==> #[trigger] self.entries@[i].0@
                != #[trigger] self.entries@[j].0@
    }

    /// The keys with their timestamps.
    pub closed spec fn view(self) -> Map<Seq<char>, i64> {
        Map::new(
            |k: Seq<char>| exists|i: int| #[trigger] self.has_key_at(k, i),
            |k: Seq<char>| self.entries@[choose|i: int| #[trigger] self.has_key_at(k, i)].1,
        )
    }

    proof fn lemma_view_at(self, i: int)
        requires
            self.wf(),
            0 <= i < self.entries@.len(),
        ensures
            self.view().contains_key(self.entries@[i].0@),
            self.view()[self.entries@[i].0@] == self.entries@[i].1,
    {
        let k = self.entries@[i].0@;
        assert(self.has_key_at(k, i));
        let j = choose|j: int| #[trigger] self.has_key_at(k, j);
        assert(self.has_key_at(k, j));
        if i < j {
            assert(self.entries@[i].0@ != self.entries@[j].0@);
        } else if j < i {
            assert(self.entries@[j].0@ != self.entries@[i].0@);
        }
    }

    /// An empty map.
    pub fn new() -> (r: TimedKeys)
        ensures
            r.wf(),
            r.view() == Map::<Seq<char>, i64>::empty(),
    {
        let r = TimedKeys { entries: Vec::new() };
        assert(r.view() =~= Map::<Seq<char>, i64>::empty());
        r
    }

    /// The number of entries.
    pub fn len(&self) -> (n: usize)
        requires
            self.wf(),
        ensures
            n == self.view().dom().len(),
    {
        proof {
            self.lemma_dom_len();
        }
        self.entries.len()
    }

    proof fn lemma_dom_len(self)
        requires
            self.wf(),
        ensures
            self.view().dom().finite(),
            self.view().dom().len() == self.entries@.len(),
        decreases self.entries@.len(),
    {
        let n = self.entries@.len();
        if n == 0 {
            assert(self.view().dom() =~= Set::<Seq<char>>::empty());
        } else {
            let s = self.entries@.drop_last();
            let short_dom = Set::new(|k: Seq<char>| exists|i: int| 0 <= i < s.len() && s[i].0@ == k);
            let last = self.entries@[n - 1].0@;
            self.lemma_dom_prefix(n - 1);
            assert(self.view().dom() =~= short_dom.insert(last)) by {
                assert forall|k: Seq<char>| self.view().dom().contains(k) implies short_dom.insert(
                    last,
                ).contains(k) by {
                    let i = choose|i: int| #[trigger] self.has_key_at(k, i);
                    if i < n - 1 {
                        assert(s[i].0@ == k);
                    }
                }
                assert forall|k: Seq<char>| short_dom.insert(last).contains(k) implies self.view().dom().contains(
                    k,
                ) by {
                    if k == last {
                        assert(self.has_key_at(k, n - 1));
                    } else {
                        let i = choose|i: int| 0 <= i < s.len() && s[i].0@ == k;
                        assert(self.has_key_at(k, i));
                    }
                }
            }
            assert(!short_dom.contains(last)) by {
                if short_dom.contains(last) {
                    let i = choose|i: int| 0 <= i < s.len() && s[i].0@ == last;
                    assert(self.entries@[i].0@ != self.entries@[n - 1].0@);
                }
            }
        }
    }

    proof fn lemma_dom_prefix(self, m: int)
        requires
            self.wf(),
            0 <= m <= self.entries@.len(),
        ensures
            ({
                let s = self.entries@.take(m);
                let d = Set::new(|k: Seq<char>| exists|i: int| 0 <= i < s.len() && s[i].0@ == k);
                d.finite() && d.len() == m
            }),
        decreases m,
    {
        let s = self.entries@.take(m);
        let d = Set::new(|k: Seq<char>| exists|i: int| 0 <= i < s.len() && s[i].0@ == k);
        if m == 0 {
            assert(d =~= Set::<Seq<char>>::empty());
        } else {
            self.lemma_dom_prefix(m - 1);
            let s2 = self.entries@.take(m - 1);
            let d2 = Set::new(|k: Seq<char>| exists|i: int| 0 <= i < s2.len() && s2[i].0@ == k);
            let last = self.entries@[m - 1].0@;
            assert(d =~= d2.insert(last)) by {
                assert forall|k: Seq<char>| d.contains(k) implies d2.insert(last).contains(k) by {
                    let i = choose|i: int| 0 <= i < s.len() && s[i].0@ == k;
                    if i < m - 1 {
                        assert(s2[i].0@ == k);
                    }
                }
                assert forall|k: Seq<char>| d2.insert(last).contains(k) implies d.contains(k) by {
                    if k == last {
                        assert(s[m - 1].0@ == k);
                    } else {
                        let i = choose|i: int| 0 <= i < s2.len() && s2[i].0@ == k;
                        assert(s[i].0@ == k);
                    }
                }
            }
            assert(!d2.contains(last)) by {
                if d2.contains(last) {
                    let i = choose|i: int| 0 <= i < s2.len() && s2[i].0@ == last;
                    assert(self.entries@[i].0@ != self.entries@[m - 1].0@);
                }
            }
        }
    }

    /// The position of `key`, if present.
    fn find(&self, key: &String) -> (r: Option<usize>)
        requires
            self.wf(),
        ensures
            r matches Some(i) ==> i < self.entries@.len() && self.entries@[i as int].0@ == key@,
            r is None ==> !self.view().contains_key(key@),
    {
        let mut i: usize = 0;
        while i < self.entries.len()
            invariant
                i <= self.entries@.len(),
                forall|j: int| 0 <= j < i ==> self.entries@[j].0@ != key@,
            decreases self.entries@.len() - i,
        {
            if self.entries[i].0 == *key {
                return Some(i);
            }
            i = i + 1;
        }
        assert(!self.view().contains_key(key@)) by {
            if self.view().contains_key(key@) {
                let j = choose|j: int| #[trigger] self.has_key_at(key@, j);
                assert(self.entries@[j].0@ != key@);
            }
        }
        None
    }

    /// The timestamp stored for `key`.
    pub fn get(&self, key: &str) -> (r: Option<i64>)
        requires
            self.wf(),
        ensures
            r matches Some(t) ==> self.view().contains_key(key@) && self.view()[key@] == t,
            r is None ==> !self.view().contains_key(key@),
    {
        let k = key.to_owned();
        match self.find(&k) {
            Some(i) => {
                proof {
                    self.lemma_view_at(i as int);
                }
                Some(self.entries[i].1)
            },
            None => None,
        }
    }

    /// Sets the timestamp of `key`.
    pub fn insert(&mut self, key: &str, t: i64)
        requires
            old(self).wf(),
        ensures
            final(self).wf(),
            final(self).view() == old(self).view().insert(key@, t),
    {
        let k = key.to_owned();
        let ghost before = *self;
        match self.find(&k) {
            Some(i) => {
                self.entries.set(i, (k, t));
                proof {
                    assert(self.wf()) by {
                        assert forall|a: int, b: int|
                            0 <= a < b < self.entries@.len() implies #[trigger] self.entries@[a].0@
                            != #[trigger] self.entries@[b].0@ by {
                            assert(before.entries@[a].0@ != before.entries@[b].0@);
                        }
                    }
                    self.lemma_same_view_update(before, i as int, key@, t);
                }
            },
            None => {
                self.entries.push((k, t));
                proof {
                    assert(self.wf()) by {
                        assert forall|a: int, b: int|
                            0 <= a < b < self.entries@.len() implies #[trigger] self.entries@[a].0@
                            != #[trigger] self.entries@[b].0@ by {
                            if b == self.entries@.len() - 1 {
                                assert(before.has_key_at(self.entries@[a].0@, a));
                            } else {
                                assert(before.entries@[a].0@ != before.entries@[b].0@);
                            }
                        }
                    }
                    assert(self.view() =~= before.view().insert(key@, t)) by {
                        let n = self.entries@.len() - 1;
                        self.lemma_view_at(n);
                        assert forall|k2: Seq<char>| self.view().contains_key(k2) <==> before.view().insert(
                            key@,
                            t,
                        ).contains_key(k2) by {
                            if self.view().contains_key(k2) {
                                let j = choose|j: int| #[trigger] self.has_key_at(k2, j);
                                if j < n {
                                    assert(before.has_key_at(k2, j));
                                }
                            }
                            if before.view().contains_key(k2) {
                                let j = choose|j: int| #[trigger] before.has_key_at(k2, j);
                                assert(self.has_key_at(k2, j));
                            }
                        }
                        assert forall|k2: Seq<char>| #[trigger] self.view().contains_key(k2) && k2 != key@
                            implies self.view()[k2] == before.view()[k2] by {
                            let j = choose|j: int| #[trigger] self.has_key_at(k2, j);
                            if j < n {
                                assert(before.has_key_at(k2, j));
                                self.lemma_view_at(j);
                                before.lemma_view_at(j);
                            }
                        }
                    }
                }
            },
        }
    }

    proof fn lemma_same_view_update(self, before: TimedKeys, i: int, key: Seq<char>, t: i64)
        requires
            before.wf(),
            self.wf(),
            0 <= i < before.entries@.len(),
            before.entries@[i].0@ == key,
            self.entries@ == before.entries@.update(i, (self.entries@[i].0, t)),
            self.entries@[i].0@ == key,
        ensures
            self.view() == before.view().insert(key, t),
    {
        assert(self.view() =~= before.view().insert(key, t)) by {
            self.lemma_view_at(i);
            assert forall|k2: Seq<char>| self.view().contains_key(k2) <==> before.view().insert(
                key,
                t,
            ).contains_key(k2) by {
                if self.view().contains_key(k2) {
                    let j = choose|j: int| #[trigger] self.has_key_at(k2, j);
                    assert(before.has_key_at(k2, j));
                }
                if before.view().contains_key(k2) {
                    let j = choose|j: int| #[trigger] before.has_key_at(k2, j);
                    assert(self.has_key_at(k2, j));
                }
            }
            assert forall|k2: Seq<char>| #[trigger] self.view().contains_key(k2) && k2 != key implies self.view()[k2]
                == before.view()[k2] by {
                let j = choose|j: int| #[trigger] self.has_key_at(k2, j);
                assert(before.has_key_at(k2, j));
                self.lemma_view_at(j);
                before.lemma_view_at(j);
            }
        }
    }

    /// Keeps only the entries for which `keep(timestamp)` holds, where `keep` is
    /// "younger than the horizon" or "deadline after now".
    fn retain_where(&mut self, now: i64, deadlines: bool)
        requires
            old(self).wf(),
        ensures
            final(self).wf(),
            !deadlines ==> final(self).view() == spec_expire(old(self).view(), now),
            deadlines ==> final(self).view() == spec_expire_deadlines(old(self).view(), now),
    {
        let ghost before = *self;
        let mut kept: Vec<(String, i64)> = Vec::new();
        let mut i: usize = 0;
        while i < self.entries.len()
            invariant
                before == *self,
                before.wf(),
                i <= before.entries@.len(),
                forall|a: int| 0 <= a < kept@.len() ==> exists|b: int| 0 <= b < i && #[trigger] kept@[a].0@ == before.entries@[b].0@ && kept@[a].1 == before.entries@[b].1,
                forall|a: int, b: int|
                    0 <= a < b < kept@.len() ==> #[trigger] kept@[a].0@ != #[trigger] kept@[b].0@,
                forall|b: int|
                    0 <= b < i && (if deadlines { before.entries@[b].1 > now } else { kept_at(now, before.entries@[b].1) })
                        ==> exists|a: int| 0 <= a < kept@.len() && #[trigger] kept@[a].0@ == #[trigger] before.entries@[b].0@,
                forall|a: int| 0 <= a < kept@.len() ==> (if deadlines { #[trigger] kept@[a].1 > now } else { kept_at(now, kept@[a].1) }),
            decreases before.entries@.len() - i,
        {
            let t = self.entries[i].1;
            let keep = if deadlines {
                t > now
            } else {
                (now as i128) - (t as i128) < (RECENT_HORIZON_MS as i128)
            };
            let ghost old_kept = kept@;
            if keep {
                let k = self.entries[i].0.clone();
                proof {
                    assert forall|a: int| 0 <= a < kept@.len() implies kept@[a].0@ != k@ by {
                        let b = choose|b: int| 0 <= b < i && #[trigger] kept@[a].0@ == before.entries@[b].0@ && kept@[a].1 == before.entries@[b].1;
                        assert(before.entries@[b].0@ != before.entries@[i as int].0@);
                    }
                }
                kept.push((k, t));
                proof {
                    assert(kept@[kept@.len() - 1].0@ == before.entries@[i as int].0@);
                }
            }
            proof {
                assert forall|b: int|
                    0 <= b < i + 1 && (if deadlines { before.entries@[b].1 > now } else { kept_at(now, before.entries@[b].1) })
                    implies exists|a: int| 0 <= a < kept@.len() && #[trigger] kept@[a].0@ == #[trigger] before.entries@[b].0@ by {
                    if b == i {
                        assert(kept@[kept@.len() - 1].0@ == before.entries@[b].0@);
                    } else {
                        let a = choose|a: int| 0 <= a < old_kept.len() && #[trigger] old_kept[a].0@ == #[trigger] before.entries@[b].0@;
                        assert(kept@[a] == old_kept[a]);
                        assert(kept@[a].0@ == before.entries@[b].0@);
                    }
                }
            }
            i = i + 1;
        }
        self.entries = kept;
        proof {
            let target = if deadlines {
                spec_expire_deadlines(before.view(), now)
            } else {
                spec_expire(before.view(), now)
            };
            assert(self.view() =~= target) by {
                assert forall|k: Seq<char>| self.view().contains_key(k) <==> target.contains_key(k) by {
                    if self.view().contains_key(k) {
                        let a = choose|a: int| #[trigger] self.has_key_at(k, a);
                        let b = choose|b: int| 0 <= b < before.entries@.len() && #[trigger] kept@[a].0@ == before.entries@[b].0@ && kept@[a].1 == before.entries@[b].1;
                        before.lemma_view_at(b);
                    }
                    if target.contains_key(k) {
                        let b = choose|b: int| #[trigger] before.has_key_at(k, b);
                        before.lemma_view_at(b);
                        let a = choose|a: int| 0 <= a < kept@.len() && #[trigger] kept@[a].0@ == #[trigger] before.entries@[b].0@;
                        assert(self.has_key_at(k, a));
                    }
                }
                assert forall|k: Seq<char>| #[trigger] self.view().contains_key(k) implies self.view()[k] == target[k] by {
                    let a = choose|a: int| #[trigger] self.has_key_at(k, a);
                    self.lemma_view_at(a);
                    let b = choose|b: int| 0 <= b < before.entries@.len() && #[trigger] kept@[a].0@ == before.entries@[b].0@ && kept@[a].1 == before.entries@[b].1;
                    before.lemma_view_at(b);
                }
            }
        }
    }

    /// Drops entries older than ten minutes, then answers whether `key` was
    /// stamped less than `window` milliseconds before `now`.
    pub fn recent_contains(&mut self, key: &str, now: i64, window: i64) -> (r: bool)
        requires
            old(self).wf(),
        ensures
            final(self).wf(),
            final(self).view() == spec_expire(old(self).view(), now),
            r == spec_recent_contains(old(self).view(), key@, now, window),
    {
        self.retain_where(now, false);
        match self.get(key) {
            Some(t) => (now as i128) - (t as i128) < (window as i128),
            None => false,
        }
    }

    /// Drops entries older than ten minutes, then stamps `key` with `now`.
    pub fn recent_put(&mut self, key: &str, now: i64)
        requires
            old(self).wf(),
        ensures
            final(self).wf(),
            final(self).view() == spec_recent_put(old(self).view(), key@, now),
    {
        self.retain_where(now, false);
        self.insert(key, now);
    }

    /// Drops deadlines that have passed, then answers whether `key` still has one
    /// (whether its clipboard changes are suppressed at `now`).
    pub fn is_suppressed(&mut self, key: &str, now: i64) -> (r: bool)
        requires
            old(self).wf(),
        ensures
            final(self).wf(),
            final(self).view() == spec_expire_deadlines(old(self).view(), now),
            r == spec_expire_deadlines(old(self).view(), now).contains_key(key@),
    {
        self.retain_where(now, true);
        self.get(key).is_some()
    }
}

/// A key stamped at `t` is reported as recent at every `now` from `t` on while
/// fewer than `window` milliseconds (and fewer than ten minutes) have passed, and
/// as not recent once `window` milliseconds have passed.
pub proof fn lemma_put_then_contains(m: Map<Seq<char>, i64>, key: Seq<char>, t: i64, now: i64, window: i64)
    ensures
        (t <= now && now - t < window && now - t < RECENT_HORIZON_MS) ==> spec_recent_contains(
            spec_recent_put(m, key, t),
            key,
            now,
            window,
        ),
        now - t >= window ==> !spec_recent_contains(spec_recent_put(m, key, t), key, now, window),
{
}

/// Putting one key leaves the recency of every other key as expiry alone makes it.
pub proof fn lemma_put_other_key(m: Map<Seq<char>, i64>, key: Seq<char>, other: Seq<char>, t: i64, now: i64, window: i64)
    requires
        key != other,
        t <= now,
    ensures
        spec_recent_contains(spec_recent_put(m, key, t), other, now, window)
            == spec_recent_contains(m, other, now, window),
{
}

/// A hash suppressed until `until` is suppressed at every earlier `now` and not at
/// `until` or later.
pub proof fn lemma_suppressed_until(m: Map<Seq<char>, i64>, key: Seq<char>, until: i64, now: i64)
    ensures
        spec_expire_deadlines(m.insert(key, until), now).contains_key(key) <==> now < until,
{
}

} // verus!
