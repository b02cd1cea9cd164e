//! IGMP: who joined what, and who queries.

use vstd::prelude::*;

use crate::capture::alert::{error, only, quiet, warn, Alert, AlertView};
use crate::net::{dotted, Ipv4Addr};
use crate::order::{sort, sorted, views};
use crate::protocols::SECOND;
use crate::stats::health::NetworkHealth;
use crate::stats::stream::since;
use crate::table::{lemma_picked_filter, KeySet, Table};
use crate::text::{join, joined, texts};

verus! {

/// How long a join is remembered without being seen again.
pub const IGMP_JOIN_DEDUP_TTL_SECS: u64 = 300;

/// What is known of IGMP.
#[derive(Debug)]
pub struct IgmpState {
    /// Joins that were told of, by host and group, with when they were last seen.
    pub joins_seen: Table<(Ipv4Addr, Ipv4Addr), u64>,
    /// Who sent a general query in this window.
    pub querier_ips_this_window: KeySet<Ipv4Addr>,
    /// The version of the last querier, kept over windows.
    pub querier_version: Option<u8>,
    pub v3_report_seen_this_window: bool,
}

/// What is known of IGMP, in specifications.
pub struct IgmpStateView {
    pub joins_seen: Seq<((Ipv4Addr, Ipv4Addr), u64)>,
    pub querier_ips_this_window: Seq<Ipv4Addr>,
    pub querier_version: Option<u8>,
    pub v3_report_seen_this_window: bool,
}

impl View for IgmpState {
    type V = IgmpStateView;

    open spec fn view(&self) -> IgmpStateView {
        IgmpStateView {
            joins_seen: self.joins_seen@,
            querier_ips_this_window: self.querier_ips_this_window@,
            querier_version: self.querier_version,
            v3_report_seen_this_window: self.v3_report_seen_this_window,
        }
    }
}

/// Nothing known yet.
pub open spec fn fresh_igmp() -> IgmpStateView {
    IgmpStateView {
        joins_seen: Seq::empty(),
        querier_ips_this_window: Seq::empty(),
        querier_version: None,
        v3_report_seen_this_window: false,
    }
}

/// The joins that are still remembered.
pub open spec fn recent_joins(
    t: Seq<((Ipv4Addr, Ipv4Addr), u64)>,
    now: u64,
) -> Seq<((Ipv4Addr, Ipv4Addr), u64)> {
    t.filter(
        |e: ((Ipv4Addr, Ipv4Addr), u64)| since(now, e.1) < IGMP_JOIN_DEDUP_TTL_SECS * SECOND,
    )
}

/// The state at the start of the next window.
pub open spec fn igmp_reset(v: IgmpStateView, now: u64) -> IgmpStateView {
    IgmpStateView {
        querier_ips_this_window: Seq::empty(),
        v3_report_seen_this_window: false,
        joins_seen: recent_joins(v.joins_seen, now),
        ..v
    }
}

/// Addresses in text.
pub open spec fn addresses(s: Seq<Ipv4Addr>) -> Seq<Seq<char>> {
    s.map_values(|ip: Ipv4Addr| dotted(ip))
}

/// Whether several queriers compete while multicast is in use.
pub open spec fn queriers_compete(v: IgmpStateView, active: bool) -> bool {
    active && v.querier_ips_this_window.len() >= 2
}

/// The alert on several queriers.
pub open spec fn querier_alerts(v: IgmpStateView, active: bool) -> Seq<AlertView> {
    if queriers_compete(v, active) {
        seq![
            error(
                "❌ Multiple IGMP queriers detected: "@ + joined(
                    sorted::<String>(addresses(v.querier_ips_this_window)),
                    ", "@,
                )
                    + " — querier conflict causes multicast group desync; disable querier on all but one switch"@,
            ),
        ]
    } else {
        Seq::empty()
    }
}

/// The alert on a version 2 querier among version 3 hosts.
pub open spec fn version_alerts(v: IgmpStateView) -> Seq<AlertView> {
    if v.querier_version == Some(2u8) && v.v3_report_seen_this_window {
        seq![
            warn(
                "⚠ IGMPv2 querier with IGMPv3 hosts — Mac built-in Ethernet sends IGMPv3 reports that an IGMPv2 querier may not process; affected Macs may lose Dante/AES67 multicast (workaround: use a USB/Thunderbolt Ethernet adapter)"@,
            ),
        ]
    } else {
        Seq::empty()
    }
}

/// The addresses of a set in text, sorted as text.
pub fn sorted_addresses(s: &KeySet<Ipv4Addr>) -> (r: Vec<String>)
    ensures
        texts(r@) == sorted::<String>(addresses(s@)),
{
    let mut v: Vec<String> = Vec::new();
    let mut i: usize = 0;
    while i < s.len()
        invariant
            i <= s@.len(),
            v@.len() == i,
            forall|j: int| 0 <= j < i ==> (#[trigger] v@[j])@ == dotted(s@[j]),
        decreases s@.len() - i,
    {
        v.push(s.at(i).to_text());
        i += 1;
    }
    assert(views(v@) =~= addresses(s@));
    let r: Vec<String> = sort(v);
    assert(texts(r@) =~= views(r@));
    r
}

impl IgmpState {
    /// Nothing known yet.
    pub fn new() -> (r: Self)
        ensures
            r@ == fresh_igmp(),
    {
        IgmpState {
            joins_seen: Table::new(),
            querier_ips_this_window: KeySet::new(),
            querier_version: None,
            v3_report_seen_this_window: false,
        }
    }

    /// Starts the next window. Joins of hosts that went without a leave are
    /// forgotten.
    pub fn reset_window(&mut self, now: u64)
        ensures
            final(self)@ == igmp_reset(old(self)@, now),
    {
        self.querier_ips_this_window.clear();
        self.v3_report_seen_this_window = false;
        let ghost before = self.joins_seen@;
        let mut keep: Vec<bool> = Vec::new();
        let mut i: usize = 0;
        while i < self.joins_seen.len()
            invariant
                self.joins_seen@ == before,
                i <= before.len(),
                keep@.len() == i,
                forall|j: int|
                    0 <= j < i ==> #[trigger] keep@[j] == (since(now, before[j].1)
                        < IGMP_JOIN_DEDUP_TTL_SECS * SECOND),
            decreases before.len() - i,
        {
            let t: u64 = *self.joins_seen.value_at(i);
            keep.push(now.saturating_sub(t) < IGMP_JOIN_DEDUP_TTL_SECS * SECOND);
            i += 1;
        }
        self.joins_seen.retain(&keep);
        proof {
            lemma_picked_filter(
                before,
                keep@,
                |e: ((Ipv4Addr, Ipv4Addr), u64)| since(now, e.1) < IGMP_JOIN_DEDUP_TTL_SECS
                    * SECOND,
            );
        }
    }

    /// Tells of several queriers, and notes them for the score. They matter only
    /// where multicast is in use.
    pub fn check_multiple_queriers(
        &self,
        health: &mut NetworkHealth,
        has_active_multicast: bool,
    ) -> (r: Vec<Alert>)
        ensures
            views(r@) == querier_alerts(self@, has_active_multicast),
            *final(health) == (NetworkHealth {
                multiple_queriers_this_window: old(health).multiple_queriers_this_window
                    || queriers_compete(self@, has_active_multicast),
                ..*old(health)
            }),
    {
        if !has_active_multicast || self.querier_ips_this_window.len() < 2 {
            return quiet();
        }
        health.multiple_queriers_this_window = true;
        let ips: Vec<String> = sorted_addresses(&self.querier_ips_this_window);
        let mut s: String = String::from_str("❌ Multiple IGMP queriers detected: ");
        s.append(join(&ips, ", ").as_str());
        s.append(
            " — querier conflict causes multicast group desync; disable querier on all but one switch",
        );
        only(Alert::error(s))
    }

    /// Tells of a version 2 querier among version 3 hosts.
    pub fn check_version_mismatch(&self) -> (r: Vec<Alert>)
        ensures
            views(r@) == version_alerts(self@),
    {
        if self.querier_version == Some(2) && self.v3_report_seen_this_window {
            return only(
                Alert::warn(
                    String::from_str(
                        "⚠ IGMPv2 querier with IGMPv3 hosts — Mac built-in Ethernet sends IGMPv3 reports that an IGMPv2 querier may not process; affected Macs may lose Dante/AES67 multicast (workaround: use a USB/Thunderbolt Ethernet adapter)",
                    ),
                ),
            );
        }
        quiet()
    }
}

impl Default for IgmpState {
    fn default() -> (r: Self)
        ensures
            r@ == fresh_igmp(),
    {
        Self::new()
    }
}

} // verus!
