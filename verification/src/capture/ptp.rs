//! PTP: the domains, and who follows them.

use vstd::prelude::*;

use crate::capture::alert::{add_alert, add_alerts, error, quiet, warn, Alert, AlertView};
use crate::capture::avb::within;
use crate::capture::igmp::addresses;
use crate::net::{dotted, Ipv4Addr};
use crate::order::views;
use crate::protocols::{PTP_VERSION_V1, SECOND};
use crate::stats::ptp::{domain_checked, timed_out, PtpStats, PtpStatsView};
use crate::table::{keys, lemma_picked_filter, Table};
use crate::text::{dec, join, joined, push_dec, texts};

verus! {

/// How long a follower is remembered. Followers ask about once a second.
pub const FOLLOWER_SECS: u64 = 15;

/// What is known of PTP.
#[derive(Debug)]
pub struct PtpState {
    /// The domains by number and version: Dante and AES67 use the same number
    /// with different versions.
    pub domains: Table<(u8, u8), PtpStats>,
    /// Who last asked a version 1 clock for its delay, and when.
    pub v1_followers: Table<Ipv4Addr, u64>,
}

/// What is known of PTP, in specifications.
pub struct PtpStateView {
    pub domains: Seq<((u8, u8), PtpStatsView)>,
    pub v1_followers: Seq<(Ipv4Addr, u64)>,
}

impl View for PtpState {
    type V = PtpStateView;

    open spec fn view(&self) -> PtpStateView {
        PtpStateView { domains: self.domains@, v1_followers: self.v1_followers@ }
    }
}

/// Nothing known yet.
pub open spec fn fresh_ptp() -> PtpStateView {
    PtpStateView { domains: Seq::empty(), v1_followers: Seq::empty() }
}

/// A domain at the start of the next window.
pub open spec fn domain_reset(d: PtpStatsView) -> PtpStatsView {
    PtpStatsView { sync_senders_this_window: Seq::empty(), ..d }
}

/// The domains, each at the start of the next window.
pub open spec fn domains_reset(
    t: Seq<((u8, u8), PtpStatsView)>,
) -> Seq<((u8, u8), PtpStatsView)> {
    t.map_values(|e: ((u8, u8), PtpStatsView)| (e.0, domain_reset(e.1)))
}

/// The followers that asked lately.
pub open spec fn live_followers(t: Seq<(Ipv4Addr, u64)>, now: u64) -> Seq<(Ipv4Addr, u64)> {
    t.filter(|e: (Ipv4Addr, u64)| within(now, e.1, FOLLOWER_SECS as nat))
}

/// The state at the start of the next window.
pub open spec fn ptp_reset(v: PtpStateView, now: u64) -> PtpStateView {
    PtpStateView {
        domains: domains_reset(v.domains),
        v1_followers: live_followers(v.v1_followers, now),
    }
}

/// What carries a domain, in text.
pub open spec fn kind_text(d: PtpStatsView) -> Seq<char> {
    match d.protocol_kind {
        Some(k) => k,
        None => "?"@,
    }
}

/// The alert on a clock that was just lost.
pub open spec fn lost_alert(d: PtpStatsView) -> AlertView {
    error(
        "❌ PTP Clock LOST (Domain "@ + dec(d.domain as nat) + " v"@ + dec(d.version as nat) + ") ["@
            + kind_text(d) + "]"@,
    )
}

/// The domains after their silence was judged.
pub open spec fn domains_checked(
    t: Seq<((u8, u8), PtpStatsView)>,
    now: u64,
) -> Seq<((u8, u8), PtpStatsView)> {
    t.map_values(|e: ((u8, u8), PtpStatsView)| (e.0, domain_checked(e.1, now)))
}

/// An alert for each clock that was just lost.
pub open spec fn lost_alerts(t: Seq<((u8, u8), PtpStatsView)>, now: u64) -> Seq<AlertView>
    decreases t.len(),
{
    if t.len() == 0 {
        Seq::empty()
    } else if timed_out(t.last().1, now) {
        lost_alerts(t.drop_last(), now).push(lost_alert(t.last().1))
    } else {
        lost_alerts(t.drop_last(), now)
    }
}

/// Senders of Sync that are set to be preferred.
pub open spec fn preferred(t: Seq<(Ipv4Addr, u8)>) -> Seq<Ipv4Addr>
    decreases t.len(),
{
    if t.len() == 0 {
        Seq::empty()
    } else if t.last().1 == 0 {
        preferred(t.drop_last()).push(t.last().0)
    } else {
        preferred(t.drop_last())
    }
}

/// The alert on several senders of Sync in a version 1 domain. Several that are
/// set to be preferred are a misconfiguration.
pub open spec fn conflict(d: PtpStatsView) -> Seq<AlertView> {
    let senders = d.sync_senders_this_window;
    if d.version != PTP_VERSION_V1 || senders.len() <= 1 {
        Seq::empty()
    } else if preferred(senders).len() >= 2 {
        seq![
            error(
                "❌ Multiple Preferred Leaders in PTP domain "@ + dec(d.domain as nat) + " ("@
                    + joined(addresses(preferred(senders)), ", "@)
                    + ") — if one device has an external word clock and another is set as Preferred Leader, the word-clock device will lose sync and be muted unless both share the same external reference; disable Preferred Leader on all but one device"@,
            ),
        ]
    } else {
        seq![
            warn(
                "⚠ Multiple PTP Sync senders in domain "@ + dec(d.domain as nat) + " ("@ + joined(
                    addresses(keys(senders)),
                    ", "@,
                )
                    + ") — possible IGMP snooping partition or 'Sync to External' mismatch; check that only one device is the clock leader"@,
            ),
        ]
    }
}

/// The alerts on several senders of Sync, over all domains.
pub open spec fn conflicts(t: Seq<((u8, u8), PtpStatsView)>) -> Seq<AlertView>
    decreases t.len(),
{
    if t.len() == 0 {
        Seq::empty()
    } else {
        conflicts(t.drop_last()) + conflict(t.last().1)
    }
}

fn preferred_texts(t: &Table<Ipv4Addr, u8>) -> (r: Vec<String>)
    ensures
        texts(r@) == addresses(preferred(t@)),
{
    let mut r: Vec<String> = Vec::new();
    let mut i: usize = 0;
    assert(t@.take(0) =~= Seq::empty());
    assert(texts(r@) =~= addresses(preferred(t@.take(0))));
    while i < t.len()
        invariant
            i <= t@.len(),
            texts(r@) == addresses(preferred(t@.take(i as int))),
        decreases t@.len() - i,
    {
        let ghost part = t@.take(i + 1);
        assert(part.drop_last() =~= t@.take(i as int));
        let ghost before = r@;
        if *t.value_at(i) == 0 {
            r.push(t.key_at(i).to_text());
            assert(texts(r@) =~= texts(before).push(dotted(part.last().0)));
            assert(addresses(preferred(part)) =~= addresses(preferred(part.drop_last())).push(
                dotted(part.last().0),
            ));
        }
        i += 1;
    }
    assert(t@.take(i as int) =~= t@);
    r
}

fn sender_texts(t: &Table<Ipv4Addr, u8>) -> (r: Vec<String>)
    ensures
        texts(r@) == addresses(keys(t@)),
{
    let mut r: Vec<String> = Vec::new();
    let mut i: usize = 0;
    while i < t.len()
        invariant
            i <= t@.len(),
            r@.len() == i,
            forall|j: int| 0 <= j < i ==> (#[trigger] r@[j])@ == dotted(t@[j].0),
        decreases t@.len() - i,
    {
        r.push(t.key_at(i).to_text());
        i += 1;
    }
    assert(texts(r@) =~= addresses(keys(t@)));
    r
}

fn conflict_of(d: &PtpStats) -> (r: Vec<Alert>)
    ensures
        views(r@) == conflict(d@),
{
    let mut r: Vec<Alert> = quiet();
    let ghost none = views(r@);
    if d.version != PTP_VERSION_V1 || d.sync_senders_this_window.len() <= 1 {
        return r;
    }
    let leaders: Vec<String> = preferred_texts(&d.sync_senders_this_window);
    assert(leaders@.len() == texts(leaders@).len());
    if leaders.len() >= 2 {
        let mut s: String = String::from_str("❌ Multiple Preferred Leaders in PTP domain ");
        push_dec(&mut s, d.domain as u64);
        s.append(" (");
        s.append(join(&leaders, ", ").as_str());
        s.append(
            ") — if one device has an external word clock and another is set as Preferred Leader, the word-clock device will lose sync and be muted unless both share the same external reference; disable Preferred Leader on all but one device",
        );
        add_alert(&mut r, Alert::error(s));
    } else {
        let all: Vec<String> = sender_texts(&d.sync_senders_this_window);
        let mut s: String = String::from_str("⚠ Multiple PTP Sync senders in domain ");
        push_dec(&mut s, d.domain as u64);
        s.append(" (");
        s.append(join(&all, ", ").as_str());
        s.append(
            ") — possible IGMP snooping partition or 'Sync to External' mismatch; check that only one device is the clock leader",
        );
        add_alert(&mut r, Alert::warn(s));
    }
    assert(views(r@) =~= conflict(d@));
    r
}

impl PtpState {
    /// Nothing known yet.
    pub fn new() -> (r: Self)
        ensures
            r@ == fresh_ptp(),
    {
        PtpState { domains: Table::new(), v1_followers: Table::new() }
    }

    /// Starts the next window. It forgets who sent Sync, so conflicts are looked
    /// for before.
    pub fn reset_window(&mut self, now: u64)
        ensures
            final(self)@ == ptp_reset(old(self)@, now),
    {
        let ghost all = self.domains@;
        let ghost followers = self.v1_followers@;
        let mut i: usize = 0;
        while i < self.domains.len()
            invariant
                self.v1_followers@ == followers,
                i <= all.len(),
                self.domains@.len() == all.len(),
                forall|j: int|
                    0 <= j < i ==> #[trigger] self.domains@[j] == (
                        all[j].0,
                        domain_reset(all[j].1),
                    ),
                forall|j: int| i <= j < all.len() ==> #[trigger] self.domains@[j] == all[j],
            decreases all.len() - i,
        {
            let d: &mut PtpStats = self.domains.value_mut(i);
            d.sync_senders_this_window.clear();
            i += 1;
        }
        assert(self.domains@ =~= domains_reset(all));
        let mut keep: Vec<bool> = Vec::new();
        let mut k: usize = 0;
        while k < self.v1_followers.len()
            invariant
                self.v1_followers@ == followers,
                self.domains@ == domains_reset(all),
                k <= followers.len(),
                keep@.len() == k,
                forall|j: int|
                    0 <= j < k ==> #[trigger] keep@[j] == within(
                        now,
                        followers[j].1,
                        FOLLOWER_SECS as nat,
                    ),
            decreases followers.len() - k,
        {
            let t: u64 = *self.v1_followers.value_at(k);
            keep.push(now.saturating_sub(t) / SECOND < FOLLOWER_SECS);
            k += 1;
        }
        self.v1_followers.retain(&keep);
        proof {
            lemma_picked_filter(
                followers,
                keep@,
                |e: (Ipv4Addr, u64)| within(now, e.1, FOLLOWER_SECS as nat),
            );
        }
    }

    /// Judges the silence of every clock, and tells of those just lost.
    pub fn check_ptp_timeouts(&mut self, now: u64) -> (r: Vec<Alert>)
        ensures
            final(self)@ == (PtpStateView {
                domains: domains_checked(old(self)@.domains, now),
                ..old(self)@
            }),
            views(r@) == lost_alerts(old(self)@.domains, now),
    {
        let mut r: Vec<Alert> = quiet();
        let ghost all = self.domains@;
        let ghost followers = self.v1_followers@;
        let mut i: usize = 0;
        assert(all.take(0) =~= Seq::empty());
        while i < self.domains.len()
            invariant
                self.v1_followers@ == followers,
                i <= all.len(),
                self.domains@.len() == all.len(),
                forall|j: int|
                    0 <= j < i ==> #[trigger] self.domains@[j] == (
                        all[j].0,
                        domain_checked(all[j].1, now),
                    ),
                forall|j: int| i <= j < all.len() ==> #[trigger] self.domains@[j] == all[j],
                views(r@) == lost_alerts(all.take(i as int), now),
            decreases all.len() - i,
        {
            assert(all.take(i + 1).drop_last() =~= all.take(i as int));
            let d: &mut PtpStats = self.domains.value_mut(i);
            let e = d.check_timeout(now);
            if e.is_some() {
                let mut s: String = String::from_str("❌ PTP Clock LOST (Domain ");
                push_dec(&mut s, d.domain as u64);
                s.append(" v");
                push_dec(&mut s, d.version as u64);
                s.append(") [");
                match &d.protocol_kind {
                    Some(k) => {
                        s.append(k.as_str());
                    },
                    None => {
                        s.append("?");
                    },
                }
                s.append("]");
                add_alert(&mut r, Alert::error(s));
            }
            i += 1;
        }
        assert(all.take(i as int) =~= all);
        assert(self.domains@ =~= domains_checked(all, now));
        r
    }

    /// Tells of version 1 domains in which several devices send Sync.
    pub fn check_ptp_sync_conflict(&self) -> (r: Vec<Alert>)
        ensures
            views(r@) == conflicts(self@.domains),
    {
        let mut r: Vec<Alert> = quiet();
        let mut i: usize = 0;
        assert(self.domains@.take(0) =~= Seq::empty());
        while i < self.domains.len()
            invariant
                i <= self.domains@.len(),
                views(r@) == conflicts(self.domains@.take(i as int)),
            decreases self.domains@.len() - i,
        {
            assert(self.domains@.take(i + 1).drop_last() =~= self.domains@.take(i as int));
            add_alerts(&mut r, conflict_of(self.domains.value_at(i)));
            i += 1;
        }
        assert(self.domains@.take(i as int) =~= self.domains@);
        r
    }
}

impl Default for PtpState {
    fn default() -> (r: Self)
        ensures
            r@ == fresh_ptp(),
    {
        Self::new()
    }
}

/// A single sender of Sync is no conflict, and neither is any number of them in
/// another version.
pub proof fn law_one_leader_is_no_conflict(d: PtpStatsView)
    requires
        d.sync_senders_this_window.len() <= 1 || d.version != PTP_VERSION_V1,
    ensures
        conflict(d).len() == 0,
{
}

} // verus!
