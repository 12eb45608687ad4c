//! Alert cooldowns: an alert for the same (pid, category) is raised again only
//! after the cooldown has passed since it was last raised.
//!
//! Times are nanoseconds on the monotonic clock, counted from when the tracker
//! was made.

use vstd::prelude::*;
use crate::clock::{elapsed_nanos, instant_now};
use crate::security::AlertCategory;
use crate::windows::{
    alert_view, alert_views, copy_candidate, spec_windows_alerts, windows_alert_candidates,
    AlertCandidate, AlertView, WindowsSecurityStatus,
};

verus! {

/// Seconds before the same alert (same pid and category) may fire again.
pub const ALERT_COOLDOWN_SECS: u64 = 60;

/// The cooldown in nanoseconds.
pub open spec fn cooldown_nanos() -> int {
    ALERT_COOLDOWN_SECS as u128 * 1_000_000_000
}

/// The key an alert is deduplicated by.
pub type AlertKey = (u32, AlertCategory);

/// Key of an alert.
pub open spec fn key_of_view(a: AlertView) -> AlertKey {
    (a.3, a.1)
}

/// `now - then`, or zero when `then` is later.
pub open spec fn since(now: u128, then: u128) -> int {
    if now >= then {
        now - then
    } else {
        0
    }
}

/// Feeds `alerts` through the cooldown in order, starting from the last-fired
/// times `m`, at time `now`: the new last-fired times and the alerts let through.
pub open spec fn cooldown_fold(m: Map<AlertKey, u128>, alerts: Seq<AlertView>, now: u128) -> (
    Map<AlertKey, u128>,
    Seq<AlertView>,
)
    decreases alerts.len(),
{
    if alerts.len() == 0 {
        (m, Seq::empty())
    } else {
        let (m1, kept) = cooldown_fold(m, alerts.drop_last(), now);
        let a = alerts.last();
        let k = key_of_view(a);
        if m1.contains_key(k) && since(now, m1[k]) < cooldown_nanos() {
            (m1, kept)
        } else {
            (m1.insert(k, now), kept.push(a))
        }
    }
}

type Entry = (u32, AlertCategory, u128);

pub open spec fn entry_key(e: (u32, AlertCategory, u128)) -> AlertKey {
    (e.0, e.1)
}

/// No two entries share a key.
pub open spec fn keys_distinct(s: Seq<(u32, AlertCategory, u128)>) -> bool {
    forall|i: int, j: int| 0 <= i < j < s.len() ==> entry_key(#[trigger] s[i]) != entry_key(#[trigger] s[j])
}

/// The last-fired time of each key in `s`.
pub open spec fn entries_map(s: Seq<(u32, AlertCategory, u128)>) -> Map<AlertKey, u128>
    decreases s.len(),
{
    if s.len() == 0 {
        Map::empty()
    } else {
        entries_map(s.drop_last()).insert(entry_key(s.last()), s.last().2)
    }
}

proof fn lemma_entries_lookup(s: Seq<Entry>, i: int)
    requires
        keys_distinct(s),
        0 <= i < s.len(),
    ensures
        entries_map(s).contains_key(entry_key(s[i])),
        entries_map(s)[entry_key(s[i])] == s[i].2,
    decreases s.len(),
{
    if i < s.len() - 1 {
        assert(entry_key(s[i]) != entry_key(s[s.len() - 1]));
        lemma_entries_lookup(s.drop_last(), i);
        assert(s.drop_last()[i] == s[i]);
    }
}

proof fn lemma_entries_absent(s: Seq<Entry>, k: AlertKey)
    requires
        forall|i: int| 0 <= i < s.len() ==> entry_key(#[trigger] s[i]) != k,
    ensures
        !entries_map(s).contains_key(k),
    decreases s.len(),
{
    if s.len() > 0 {
        assert(entry_key(s[s.len() - 1]) != k);
        assert forall|i: int| 0 <= i < s.drop_last().len() implies entry_key(#[trigger] s.drop_last()[i]) != k by {
            assert(s.drop_last()[i] == s[i]);
        }
        lemma_entries_absent(s.drop_last(), k);
    }
}

proof fn lemma_entries_update(s: Seq<Entry>, i: int, t: u128)
    requires
        keys_distinct(s),
        0 <= i < s.len(),
    ensures
        entries_map(s.update(i, (s[i].0, s[i].1, t))) == entries_map(s).insert(entry_key(s[i]), t),
    decreases s.len(),
{
    let e = (s[i].0, s[i].1, t);
    let u = s.update(i, e);
    if i == s.len() - 1 {
        assert(u.drop_last() =~= s.drop_last());
        assert(entries_map(u) =~= entries_map(s).insert(entry_key(s[i]), t));
    } else {
        assert(u.drop_last() =~= s.drop_last().update(i, e));
        assert(keys_distinct(s.drop_last())) by {
            assert forall|a: int, b: int| 0 <= a < b < s.drop_last().len() implies entry_key(
                #[trigger] s.drop_last()[a],
            ) != entry_key(#[trigger] s.drop_last()[b]) by {
                assert(s.drop_last()[a] == s[a]);
                assert(s.drop_last()[b] == s[b]);
            }
        }
        assert(s.drop_last()[i] == s[i]);
        lemma_entries_update(s.drop_last(), i, t);
        assert(entry_key(s[i]) != entry_key(s.last()));
        assert(u.last() == s.last());
        assert(entries_map(u) =~= entries_map(s).insert(entry_key(s[i]), t));
    }
}

/// Last-fired times of the alerts raised so far.
pub struct AlertCooldowns {
    base: std::time::Instant,
    entries: Vec<(u32, AlertCategory, u128)>,
}

impl AlertCooldowns {
    #[verifier::type_invariant]
    spec fn wf(self) -> bool {
        keys_distinct(self.entries@)
    }

    /// When each (pid, category) last fired.
    pub closed spec fn view(&self) -> Map<AlertKey, u128> {
        entries_map(self.entries@)
    }

    /// A tracker that has seen no alert; its clock starts now.
    pub fn new() -> (c: AlertCooldowns)
        ensures
            c.view() == Map::<AlertKey, u128>::empty(),
    {
        AlertCooldowns { base: instant_now(), entries: Vec::new() }
    }

    fn find(entries: &Vec<Entry>, pid: u32, category: AlertCategory) -> (r: Option<usize>)
        ensures
            match r {
                Some(i) => i < entries@.len() && entry_key(entries@[i as int]) == (pid, category),
                None => forall|i: int| 0 <= i < entries@.len() ==> entry_key(#[trigger] entries@[i]) != (pid, category),
            },
    {
        let mut i: usize = 0;
        while i < entries.len()
            invariant
                i <= entries@.len(),
                forall|j: int| 0 <= j < i ==> entry_key(#[trigger] entries@[j]) != (pid, category),
            decreases entries@.len() - i,
        {
            let e = entries[i];
            if e.0 == pid && e.1 == category {
                return Some(i);
            }
            i = i + 1;
        }
        None
    }

    /// Lets through the alerts whose (pid, category) has not fired within the
    /// cooldown before `now`, in order, and records them as fired at `now`.
    pub fn filter_at(&mut self, alerts: Vec<AlertCandidate>, now: u128) -> (kept: Vec<AlertCandidate>)
        ensures
            final(self).view() == cooldown_fold(old(self).view(), alert_views(alerts@), now).0,
            alert_views(kept@) == cooldown_fold(old(self).view(), alert_views(alerts@), now).1,
    {
        proof {
            use_type_invariant(&*self);
        }
        let mut kept: Vec<AlertCandidate> = Vec::new();
        let mut entries: Vec<Entry> = Vec::new();
        std::mem::swap(&mut entries, &mut self.entries);
        let ghost m0 = entries_map(entries@);
        let ghost views = alert_views(alerts@);
        let n = alerts.len();
        let mut i: usize = 0;
        proof {
            assert(views.take(0) =~= Seq::<AlertView>::empty());
        }
        while i < n
            invariant
                n == views.len(),
                i <= n,
                keys_distinct(entries@),
                m0 == old(self).view(),
                views == alert_views(alerts@),
                alerts@.len() == n,
                entries_map(entries@) == cooldown_fold(m0, views.take(i as int), now).0,
                alert_views(kept@) == cooldown_fold(m0, views.take(i as int), now).1,
            decreases n - i,
        {
            let a = copy_candidate(&alerts[i]);
            proof {
                assert(views.take(i + 1).drop_last() =~= views.take(i as int));
                assert(views.take(i + 1).last() == views[i as int]);
            }
            let pid = a.pid;
            let category = a.category;
            match Self::find(&entries, pid, category) {
                Some(p) => {
                    let last = entries[p].2;
                    proof {
                        lemma_entries_lookup(entries@, p as int);
                    }
                    let elapsed: u128 = if now >= last {
                        now - last
                    } else {
                        0
                    };
                    if elapsed < ALERT_COOLDOWN_SECS as u128 * 1_000_000_000 {
                    } else {
                        proof {
                            lemma_entries_update(entries@, p as int, now);
                        }
                        let ghost before_entries = entries@;
                        entries.set(p, (pid, category, now));
                        proof {
                            assert forall|x: int, y: int| 0 <= x < y < entries@.len() implies entry_key(
                                #[trigger] entries@[x],
                            ) != entry_key(#[trigger] entries@[y]) by {
                                assert(entry_key(entries@[x]) == entry_key(before_entries[x]));
                                assert(entry_key(entries@[y]) == entry_key(before_entries[y]));
                            }
                        }
                        let ghost before = kept@;
                        kept.push(a);
                        proof {
                            assert(alert_views(kept@) =~= alert_views(before).push(alert_view(a)));
                        }
                    }
                },
                None => {
                    proof {
                        lemma_entries_absent(entries@, (pid, category));
                    }
                    let ghost before_entries = entries@;
                    entries.push((pid, category, now));
                    proof {
                        assert(entries@.drop_last() =~= before_entries);
                    }
                    let ghost before = kept@;
                    kept.push(a);
                    proof {
                        assert(alert_views(kept@) =~= alert_views(before).push(alert_view(a)));
                    }
                },
            }
            i = i + 1;
        }
        proof {
            assert(views.take(n as int) =~= views);
        }
        self.entries = entries;
        kept
    }

    /// `filter_at` with the current time.
    pub fn filter(&mut self, alerts: Vec<AlertCandidate>) -> (kept: Vec<AlertCandidate>)
        ensures
            exists|now: u128|
                final(self).view() == #[trigger] cooldown_fold(old(self).view(), alert_views(alerts@), now).0
                    && alert_views(kept@) == cooldown_fold(old(self).view(), alert_views(alerts@), now).1,
    {
        let now = elapsed_nanos(&self.base);
        self.filter_at(alerts, now)
    }
}

/// Every alert let through is recorded as fired at `now`.
proof fn lemma_fold_records_kept(m: Map<AlertKey, u128>, alerts: Seq<AlertView>, now: u128)
    ensures
        forall|j: int|
            0 <= j < cooldown_fold(m, alerts, now).1.len() ==> {
                let k = key_of_view(#[trigger] cooldown_fold(m, alerts, now).1[j]);
                cooldown_fold(m, alerts, now).0.contains_key(k) && cooldown_fold(m, alerts, now).0[k] == now
            },
    decreases alerts.len(),
{
    if alerts.len() > 0 {
        lemma_fold_records_kept(m, alerts.drop_last(), now);
        let (m1, kept1) = cooldown_fold(m, alerts.drop_last(), now);
        let (m2, kept2) = cooldown_fold(m, alerts, now);
        assert forall|j: int| 0 <= j < kept2.len() implies m2.contains_key(key_of_view(#[trigger] kept2[j]))
            && m2[key_of_view(kept2[j])] == now by {
            if j < kept1.len() {
                assert(kept2[j] == kept1[j]);
                assert(m1.contains_key(key_of_view(kept1[j])));
            }
        }
    }
}

/// A key that fired less than the cooldown before `now` stays as it is and
/// lets no alert through.
proof fn lemma_fold_blocks_recent(m: Map<AlertKey, u128>, alerts: Seq<AlertView>, now: u128, k: AlertKey)
    requires
        m.contains_key(k),
        since(now, m[k]) < cooldown_nanos(),
    ensures
        cooldown_fold(m, alerts, now).0.contains_key(k),
        cooldown_fold(m, alerts, now).0[k] == m[k],
        forall|j: int|
            0 <= j < cooldown_fold(m, alerts, now).1.len() ==> key_of_view(
                #[trigger] cooldown_fold(m, alerts, now).1[j],
            ) != k,
    decreases alerts.len(),
{
    if alerts.len() > 0 {
        lemma_fold_blocks_recent(m, alerts.drop_last(), now, k);
    }
}

/// Once an alert has been let through at `now1`, no alert with the same
/// (pid, category) gets through a later batch less than the cooldown after it.
pub proof fn lemma_cooldown_suppresses_repeat(
    m: Map<AlertKey, u128>,
    first: Seq<AlertView>,
    now1: u128,
    second: Seq<AlertView>,
    now2: u128,
)
    requires
        now1 <= now2,
        now2 - now1 < cooldown_nanos(),
    ensures
        ({
            let (m1, kept1) = cooldown_fold(m, first, now1);
            let kept2 = cooldown_fold(m1, second, now2).1;
            forall|i: int, j: int|
                0 <= i < kept1.len() && 0 <= j < kept2.len() ==> key_of_view(#[trigger] kept1[i])
                    != key_of_view(#[trigger] kept2[j])
        }),
{
    let (m1, kept1) = cooldown_fold(m, first, now1);
    let kept2 = cooldown_fold(m1, second, now2).1;
    lemma_fold_records_kept(m, first, now1);
    assert forall|i: int, j: int| 0 <= i < kept1.len() && 0 <= j < kept2.len() implies key_of_view(
        #[trigger] kept1[i],
    ) != key_of_view(#[trigger] kept2[j]) by {
        let k = key_of_view(kept1[i]);
        lemma_fold_blocks_recent(m1, second, now2, k);
    }
}

/// The alerts the Windows host's security status raises now: none without a
/// status, else the candidates that pass the cooldown.
pub fn windows_security_alerts(
    cooldowns: &mut AlertCooldowns,
    hostname: &str,
    security: Option<&WindowsSecurityStatus>,
) -> (r: Vec<AlertCandidate>)
    ensures
        match security {
            None => r@.len() == 0 && final(cooldowns).view() == old(cooldowns).view(),
            Some(sec) => exists|now: u128|
                final(cooldowns).view() == #[trigger] cooldown_fold(
                    old(cooldowns).view(),
                    spec_windows_alerts(hostname@, *sec),
                    now,
                ).0 && alert_views(r@) == cooldown_fold(
                    old(cooldowns).view(),
                    spec_windows_alerts(hostname@, *sec),
                    now,
                ).1,
        },
{
    match security {
        None => Vec::new(),
        Some(sec) => {
            let candidates = windows_alert_candidates(hostname, sec);
            cooldowns.filter(candidates)
        },
    }
}

} // verus!
