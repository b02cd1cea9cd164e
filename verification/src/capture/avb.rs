//! AVB: streams, reservations, VLANs and entities, whose lives are tied.

use vstd::prelude::*;

use crate::protocols::{MsrpDeclaration, SECOND, STREAM_TIMEOUT_SECS};
use crate::stats::avtp::{AvdeccEntity, AvtpStreamStats};
use crate::stats::stream::since;
use crate::table::{holds, lemma_picked_filter, KeySet, Table};

verus! {

/// After how many silent seconds a stream is dropped. It is shown as dead for a
/// while before.
pub const STREAM_PRUNE_SECS: u64 = STREAM_TIMEOUT_SECS * 2;

/// What is known of AVB.
#[derive(Debug)]
pub struct AvbState {
    pub avtp_streams: Table<[u8; 8], AvtpStreamStats>,
    pub msrp_state: Table<[u8; 8], MsrpDeclaration>,
    pub mvrp_vlans: KeySet<u16>,
    pub avdecc_entities: Table<[u8; 8], AvdeccEntity>,
}

/// What is known of AVB, in specifications.
pub struct AvbView {
    pub avtp_streams: Seq<(Seq<u8>, AvtpStreamStats)>,
    pub msrp_state: Seq<(Seq<u8>, MsrpDeclaration)>,
    pub mvrp_vlans: Seq<u16>,
    pub avdecc_entities: Seq<(Seq<u8>, AvdeccEntity)>,
}

impl View for AvbState {
    type V = AvbView;

    open spec fn view(&self) -> AvbView {
        AvbView {
            avtp_streams: self.avtp_streams@,
            msrp_state: self.msrp_state@,
            mvrp_vlans: self.mvrp_vlans@,
            avdecc_entities: self.avdecc_entities@,
        }
    }
}

/// Nothing known yet.
pub open spec fn fresh_avb() -> AvbView {
    AvbView {
        avtp_streams: Seq::empty(),
        msrp_state: Seq::empty(),
        mvrp_vlans: Seq::empty(),
        avdecc_entities: Seq::empty(),
    }
}

/// Whether something was seen less than `secs` seconds ago, counted in whole
/// seconds.
pub open spec fn within(now: u64, then: u64, secs: nat) -> bool {
    ((since(now, then) / SECOND) as nat) < secs
}

/// The streams that are not silent for too long.
pub open spec fn live_avtp(
    t: Seq<(Seq<u8>, AvtpStreamStats)>,
    now: u64,
) -> Seq<(Seq<u8>, AvtpStreamStats)> {
    t.filter(|e: (Seq<u8>, AvtpStreamStats)| within(now, e.1.last_seen, STREAM_PRUNE_SECS as nat))
}

/// The reservations whose streams are there.
pub open spec fn backed_msrp(
    t: Seq<(Seq<u8>, MsrpDeclaration)>,
    streams: Seq<(Seq<u8>, AvtpStreamStats)>,
) -> Seq<(Seq<u8>, MsrpDeclaration)> {
    t.filter(|e: (Seq<u8>, MsrpDeclaration)| holds(streams, e.0))
}

/// The entities whose announcement has not run out, with ten seconds of grace.
pub open spec fn valid_entities(
    t: Seq<(Seq<u8>, AvdeccEntity)>,
    now: u64,
) -> Seq<(Seq<u8>, AvdeccEntity)> {
    t.filter(
        |e: (Seq<u8>, AvdeccEntity)|
            within(now, e.1.last_seen, (e.1.valid_time_secs + 10) as nat),
    )
}

/// The state at the start of the next window: silent streams are dropped, with
/// the reservations that have no stream left, and the VLANs once there is no
/// stream at all.
pub open spec fn avb_reset(v: AvbView, now: u64) -> AvbView {
    let streams = live_avtp(v.avtp_streams, now);
    AvbView {
        avtp_streams: streams,
        msrp_state: backed_msrp(v.msrp_state, streams),
        mvrp_vlans: if streams.len() == 0 {
            Seq::empty()
        } else {
            v.mvrp_vlans
        },
        avdecc_entities: valid_entities(v.avdecc_entities, now),
    }
}

impl AvbState {
    /// Nothing known yet.
    pub fn new() -> (r: Self)
        ensures
            r@ == fresh_avb(),
    {
        AvbState {
            avtp_streams: Table::new(),
            msrp_state: Table::new(),
            mvrp_vlans: KeySet::new(),
            avdecc_entities: Table::new(),
        }
    }

    fn prune_streams(&mut self, now: u64)
        ensures
            final(self)@ == (AvbView {
                avtp_streams: live_avtp(old(self)@.avtp_streams, now),
                ..old(self)@
            }),
    {
        let ghost before = self.avtp_streams@;
        let mut keep: Vec<bool> = Vec::new();
        let mut i: usize = 0;
        while i < self.avtp_streams.len()
            invariant
                self.avtp_streams@ == before,
                self@ == old(self)@,
                i <= before.len(),
                keep@.len() == i,
                forall|j: int|
                    0 <= j < i ==> #[trigger] keep@[j] == within(
                        now,
                        before[j].1.last_seen,
                        STREAM_PRUNE_SECS as nat,
                    ),
            decreases before.len() - i,
        {
            let t: u64 = self.avtp_streams.value_at(i).last_seen;
            keep.push(now.saturating_sub(t) / SECOND < STREAM_PRUNE_SECS);
            i += 1;
        }
        self.avtp_streams.retain(&keep);
        proof {
            lemma_picked_filter(
                before,
                keep@,
                |e: (Seq<u8>, AvtpStreamStats)|
                    within(now, e.1.last_seen, STREAM_PRUNE_SECS as nat),
            );
        }
    }

    fn prune_reservations(&mut self)
        ensures
            final(self)@ == (AvbView {
                msrp_state: backed_msrp(old(self)@.msrp_state, old(self)@.avtp_streams),
                ..old(self)@
            }),
    {
        let ghost before = self.msrp_state@;
        let ghost streams = self.avtp_streams@;
        let mut keep: Vec<bool> = Vec::new();
        let mut i: usize = 0;
        while i < self.msrp_state.len()
            invariant
                self.msrp_state@ == before,
                self.avtp_streams@ == streams,
                self@ == old(self)@,
                i <= before.len(),
                keep@.len() == i,
                forall|j: int| 0 <= j < i ==> #[trigger] keep@[j] == holds(streams, before[j].0),
            decreases before.len() - i,
        {
            keep.push(self.avtp_streams.contains_key(self.msrp_state.key_at(i)));
            i += 1;
        }
        self.msrp_state.retain(&keep);
        proof {
            lemma_picked_filter(
                before,
                keep@,
                |e: (Seq<u8>, MsrpDeclaration)| holds(streams, e.0),
            );
        }
    }

    fn prune_entities(&mut self, now: u64)
        ensures
            final(self)@ == (AvbView {
                avdecc_entities: valid_entities(old(self)@.avdecc_entities, now),
                ..old(self)@
            }),
    {
        let ghost before = self.avdecc_entities@;
        let mut keep: Vec<bool> = Vec::new();
        let mut i: usize = 0;
        while i < self.avdecc_entities.len()
            invariant
                self.avdecc_entities@ == before,
                self@ == old(self)@,
                i <= before.len(),
                keep@.len() == i,
                forall|j: int|
                    0 <= j < i ==> #[trigger] keep@[j] == within(
                        now,
                        before[j].1.last_seen,
                        (before[j].1.valid_time_secs + 10) as nat,
                    ),
            decreases before.len() - i,
        {
            let e: &AvdeccEntity = self.avdecc_entities.value_at(i);
            let age: u64 = now.saturating_sub(e.last_seen) / SECOND;
            keep.push((age as u128) < e.valid_time_secs as u128 + 10);
            i += 1;
        }
        self.avdecc_entities.retain(&keep);
        proof {
            lemma_picked_filter(
                before,
                keep@,
                |e: (Seq<u8>, AvdeccEntity)|
                    within(now, e.1.last_seen, (e.1.valid_time_secs + 10) as nat),
            );
        }
    }

    /// Starts the next window.
    pub fn reset_window(&mut self, now: u64)
        ensures
            final(self)@ == avb_reset(old(self)@, now),
    {
        self.prune_streams(now);
        self.prune_reservations();
        if self.avtp_streams.is_empty() {
            self.mvrp_vlans.clear();
        }
        self.prune_entities(now);
    }
}

impl Default for AvbState {
    fn default() -> (r: Self)
        ensures
            r@ == fresh_avb(),
    {
        Self::new()
    }
}

/// After a window every reservation has its stream, and without a stream no VLAN
/// is left.
pub proof fn law_reservations_have_streams(v: AvbView, now: u64)
    ensures
        ({
            let w = avb_reset(v, now);
            (forall|i: int|
                0 <= i < w.msrp_state.len() ==> holds(
                    w.avtp_streams,
                    (#[trigger] w.msrp_state[i]).0,
                )) && (w.avtp_streams.len() == 0 ==> w.mvrp_vlans.len() == 0 && w.msrp_state.len()
                == 0)
        }),
{
    let w = avb_reset(v, now);
    let streams = live_avtp(v.avtp_streams, now);
    let backed = |e: (Seq<u8>, MsrpDeclaration)| holds(streams, e.0);
    assert forall|i: int| 0 <= i < w.msrp_state.len() implies holds(
        w.avtp_streams,
        (#[trigger] w.msrp_state[i]).0,
    ) by {
        v.msrp_state.lemma_filter_pred(backed, i);
    }
    if w.avtp_streams.len() == 0 && w.msrp_state.len() > 0 {
        assert(holds(w.avtp_streams, w.msrp_state[0].0));
    }
}

/// Nothing that was seen in time is dropped: a window without silence keeps all
/// streams.
pub proof fn law_live_avb_is_kept(v: AvbView, now: u64)
    requires
        forall|i: int|
            0 <= i < v.avtp_streams.len() ==> within(
                now,
                (#[trigger] v.avtp_streams[i]).1.last_seen,
                STREAM_PRUNE_SECS as nat,
            ),
    ensures
        avb_reset(v, now).avtp_streams == v.avtp_streams,
{
    lemma_filter_all(
        v.avtp_streams,
        |e: (Seq<u8>, AvtpStreamStats)| within(now, e.1.last_seen, STREAM_PRUNE_SECS as nat),
    );
}

pub proof fn lemma_filter_all<A>(s: Seq<A>, pred: spec_fn(A) -> bool)
    requires
        forall|i: int| 0 <= i < s.len() ==> pred(#[trigger] s[i]),
    ensures
        s.filter(pred) == s,
    decreases s.len(),
{
    reveal(Seq::filter);
    if s.len() > 0 {
        assert forall|i: int| 0 <= i < s.drop_last().len() implies pred(
            #[trigger] s.drop_last()[i],
        ) by {
            assert(pred(s[i]));
        }
        lemma_filter_all(s.drop_last(), pred);
        assert(pred(s[s.len() - 1]));
        assert(s.drop_last().push(s.last()) =~= s);
    } else {
        assert(s.filter(pred) =~= s);
    }
}

} // verus!
