//! What the choice of protocols takes in, and what tells software from hardware.

use vstd::prelude::*;

use crate::protocols::{any_igmp, any_ptp, any_sap, choice_name, choice_of, chosen, class_label, concrete, failure_reason, igmp_needed, included, ptp_needed, sap_needed, selected, software, subtype_name, verdict, AvProtocolView, ProtocolChoice, TransmitterClass, TransmitterSignals};
use crate::scan::{alike, lower};
use crate::text::dec;
use crate::text_laws::law_numbers_read_back;

verus! {

// ── Choices ──────────────────────────────────────────────────────────────────

/// All takes in every protocol, audio and video their own, and a protocol itself.
pub proof fn law_groups_take_in_their_own(c: ProtocolChoice, p: ProtocolChoice)
    ensures
        included(ProtocolChoice::All).contains(p) <==> p is AES67 || p is ST2110 || p is Dante || p is NDI
            || p is AVB,
        included(ProtocolChoice::Audio).contains(p) <==> p is AES67 || p is Dante || p is AVB,
        included(ProtocolChoice::Video).contains(p) <==> p is ST2110 || p is NDI,
        !(c is All) && !(c is Audio) && !(c is Video) ==> included(c) == seq![c],
{
    let all = included(ProtocolChoice::All);
    assert(all[0] is AES67 && all[1] is ST2110 && all[2] is Dante && all[3] is NDI && all[4] is AVB);
    let audio = included(ProtocolChoice::Audio);
    assert(audio[0] is AES67 && audio[1] is Dante && audio[2] is AVB);
    let video = included(ProtocolChoice::Video);
    assert(video[0] is ST2110 && video[1] is NDI);
}

/// Clocks matter to all but NDI, groups to what is sent by multicast over IP, and
/// announcements to AES67 and ST 2110.
pub proof fn law_needs(c: ProtocolChoice)
    ensures
        concrete(c) ==> (ptp_needed(c) <==> !(c is NDI)),
        concrete(c) ==> (igmp_needed(c) <==> !(c is NDI) && !(c is AVB)),
        sap_needed(c) <==> c is AES67 || c is ST2110,
        !concrete(c) ==> !ptp_needed(c) && !igmp_needed(c),
        concrete(c) <==> !(c is All) && !(c is Audio) && !(c is Video),
{
}

/// Everything is let through when all is chosen.
pub proof fn law_all_lets_everything_through(p: AvProtocolView)
    ensures
        selected(p, included(ProtocolChoice::All)),
{
    let e = included(ProtocolChoice::All);
    assert(e[0] is AES67 && e[1] is ST2110 && e[2] is Dante && e[3] is NDI && e[4] is AVB);
}

/// A message is let through for each of the protocols that it serves, and for no other.
/// What concerns the links is always let through.
pub proof fn law_messages_serve_protocols(p: AvProtocolView, c: ProtocolChoice)
    requires
        concrete(c),
    ensures
        ({
            let s = selected(p, seq![c]);
            match p {
                AvProtocolView::Aes67 { .. } => s <==> c is AES67,
                AvProtocolView::St2110 { .. } => s <==> c is ST2110,
                AvProtocolView::Dante { .. } => s <==> c is Dante,
                AvProtocolView::Ndi { .. } => s <==> c is NDI,
                AvProtocolView::Tcp(_) => s <==> c is NDI,
                AvProtocolView::Avb { .. } => s <==> c is AVB,
                AvProtocolView::Msrp { .. } => s <==> c is AVB,
                AvProtocolView::Mvrp { .. } => s <==> c is AVB,
                AvProtocolView::AvdeccAdp(_) => s <==> c is AVB,
                AvProtocolView::LldpEee { .. } => s,
                AvProtocolView::FlowControl { .. } => s,
                AvProtocolView::Ptp { .. } => s <==> !(c is NDI),
                AvProtocolView::Igmp { .. } => s <==> c is AES67 || c is ST2110 || c is Dante,
                AvProtocolView::Sap { .. } => s <==> c is AES67 || c is ST2110,
            }
        }),
{
    assert(seq![c][0] == c);
}

/// What one choice lets through, more choices do too; what none of them does, they do not.
pub proof fn law_choices_add_up(p: AvProtocolView, a: Seq<ProtocolChoice>, c: ProtocolChoice)
    ensures
        selected(p, a.push(c)) <==> selected(p, a) || selected(p, seq![c]),
{
    let b = a.push(c);
    let one = seq![c];
    assert(one[0] == c);
    assert(b[a.len() as int] == c);
    assert forall|x: ProtocolChoice| #[trigger] chosen(b, x) == (chosen(a, x) || x == c) by {
        if chosen(a, x) {
            let i = choose|i: int| 0 <= i < a.len() && #[trigger] a[i] == x;
            assert(b[i] == x);
        }
        if chosen(b, x) {
            let i = choose|i: int| 0 <= i < b.len() && #[trigger] b[i] == x;
            if i < a.len() {
                assert(a[i] == x);
            }
        }
    }
    assert forall|x: ProtocolChoice| #[trigger] chosen(one, x) == (x == c) by {}
    if any_ptp(a) {
        let i = choose|i: int| 0 <= i < a.len() && ptp_needed(#[trigger] a[i]);
        assert(b[i] == a[i]);
    }
    if any_ptp(b) {
        let i = choose|i: int| 0 <= i < b.len() && ptp_needed(#[trigger] b[i]);
        if i < a.len() {
            assert(a[i] == b[i]);
        }
    }
    if any_igmp(a) {
        let i = choose|i: int| 0 <= i < a.len() && igmp_needed(#[trigger] a[i]);
        assert(b[i] == a[i]);
    }
    if any_igmp(b) {
        let i = choose|i: int| 0 <= i < b.len() && igmp_needed(#[trigger] b[i]);
        if i < a.len() {
            assert(a[i] == b[i]);
        }
    }
    if any_sap(a) {
        let i = choose|i: int| 0 <= i < a.len() && sap_needed(#[trigger] a[i]);
        assert(b[i] == a[i]);
    }
    if any_sap(b) {
        let i = choose|i: int| 0 <= i < b.len() && sap_needed(#[trigger] b[i]);
        if i < a.len() {
            assert(a[i] == b[i]);
        }
    }
}

/// A choice is written as its name in any case.
pub proof fn law_choices_by_name(s: Seq<char>)
    ensures
        alike(s, "all"@) ==> choice_of(s) == Some(ProtocolChoice::All),
        alike(s, "audio"@) ==> choice_of(s) == Some(ProtocolChoice::Audio),
        alike(s, "video"@) ==> choice_of(s) == Some(ProtocolChoice::Video),
        alike(s, "aes67"@) ==> choice_of(s) == Some(ProtocolChoice::AES67),
        alike(s, "avb"@) ==> choice_of(s) == Some(ProtocolChoice::AVB),
        alike(s, "dante"@) ==> choice_of(s) == Some(ProtocolChoice::Dante),
        alike(s, "ndi"@) ==> choice_of(s) == Some(ProtocolChoice::NDI),
        alike(s, "st2110"@) ==> choice_of(s) == Some(ProtocolChoice::ST2110),
{
    reveal_strlit("all");
    reveal_strlit("audio");
    reveal_strlit("video");
    reveal_strlit("aes67");
    reveal_strlit("avb");
    reveal_strlit("dante");
    reveal_strlit("ndi");
    reveal_strlit("st2110");
    if s.len() >= 3 {
        let a = lower(s[0]);
        let b = lower(s[1]);
        assert(alike(s, "all"@) ==> a == 'a' && b == 'l');
        assert(alike(s, "audio"@) ==> a == 'a' && b == 'u');
        assert(alike(s, "video"@) ==> a == 'v');
        assert(alike(s, "aes67"@) ==> a == 'a' && b == 'e');
        assert(alike(s, "avb"@) ==> a == 'a' && b == 'v');
        assert(alike(s, "dante"@) ==> a == 'd');
        assert(alike(s, "ndi"@) ==> a == 'n');
        assert(alike(s, "st2110"@) ==> a == 's');
    }
}

/// A choice is also written as its number on the menu, from 1 to 7.
pub proof fn law_choices_by_number(n: nat)
    ensures
        choice_of(dec(1)) == Some(ProtocolChoice::Audio),
        choice_of(dec(2)) == Some(ProtocolChoice::Video),
        choice_of(dec(3)) == Some(ProtocolChoice::AES67),
        choice_of(dec(4)) == Some(ProtocolChoice::AVB),
        choice_of(dec(5)) == Some(ProtocolChoice::Dante),
        choice_of(dec(6)) == Some(ProtocolChoice::NDI),
        choice_of(dec(7)) == Some(ProtocolChoice::ST2110),
        n == 0 || n > 7 ==> choice_of(dec(n)) is None,
{
    lemma_numbers_are_no_names(1);
    lemma_numbers_are_no_names(2);
    lemma_numbers_are_no_names(3);
    lemma_numbers_are_no_names(4);
    lemma_numbers_are_no_names(5);
    lemma_numbers_are_no_names(6);
    lemma_numbers_are_no_names(7);
    lemma_numbers_are_no_names(n);
    law_numbers_read_back(1, 7);
    law_numbers_read_back(2, 7);
    law_numbers_read_back(3, 7);
    law_numbers_read_back(4, 7);
    law_numbers_read_back(5, 7);
    law_numbers_read_back(6, 7);
    law_numbers_read_back(7, 7);
    law_numbers_read_back(n, 7);
}

proof fn lemma_numbers_are_no_names(n: nat)
    ensures
        ({
            let s = dec(n);
            &&& !alike(s, "all"@) && !alike(s, "audio"@) && !alike(s, "video"@) && !alike(s, "aes67"@)
            &&& !alike(s, "avb"@) && !alike(s, "dante"@) && !alike(s, "ndi"@) && !alike(s, "st2110"@)
        }),
{
    let s = dec(n);
    crate::text_laws::law_numbers_are_digits(n);
    assert(crate::scan::is_digit(s[0]));
    assert(lower(s[0]) == s[0]);
    reveal_strlit("all");
    reveal_strlit("audio");
    reveal_strlit("video");
    reveal_strlit("aes67");
    reveal_strlit("avb");
    reveal_strlit("dante");
    reveal_strlit("ndi");
    reveal_strlit("st2110");
    assert(alike(s, "all"@) ==> lower(s[0]) == 'a');
    assert(alike(s, "audio"@) ==> lower(s[0]) == 'a');
    assert(alike(s, "video"@) ==> lower(s[0]) == 'v');
    assert(alike(s, "aes67"@) ==> lower(s[0]) == 'a');
    assert(alike(s, "avb"@) ==> lower(s[0]) == 'a');
    assert(alike(s, "dante"@) ==> lower(s[0]) == 'd');
    assert(alike(s, "ndi"@) ==> lower(s[0]) == 'n');
    assert(alike(s, "st2110"@) ==> lower(s[0]) == 's');
}

/// What each choice and each class is called.
pub proof fn law_names()
    ensures
        choice_name(ProtocolChoice::All) == "All"@,
        choice_name(ProtocolChoice::AES67) == "AES67"@,
        choice_name(ProtocolChoice::Audio) == "Audio (AES67 + Dante + AVB)"@,
        choice_name(ProtocolChoice::Video) == "Video (ST2110 + NDI)"@,
        choice_name(ProtocolChoice::ST2110) == "ST2110"@,
        choice_name(ProtocolChoice::Dante) == "Dante"@,
        choice_name(ProtocolChoice::NDI) == "NDI"@,
        choice_name(ProtocolChoice::AVB) == "AVB"@,
        class_label(TransmitterClass::Hardware) == "Hardware"@,
        class_label(TransmitterClass::Dvs) == "DVS"@,
        class_label(TransmitterClass::Via) == "Via"@,
{
}

/// What the subtypes of AVB are called.
pub proof fn law_subtypes(n: u8)
    ensures
        subtype_name(0) == "IEC 61883"@,
        subtype_name(1) == "MMA Streams"@,
        subtype_name(2) == "CRF"@,
        subtype_name(3) == "CVF"@,
        subtype_name(4) == "CEF"@,
        subtype_name(126) == "MAAP"@,
        subtype_name(127) == "Experimental"@,
        n > 4 && n != 126 && n != 127 ==> subtype_name(n) == "AVTP"@,
{
}

/// Why a reservation failed, by its code.
pub proof fn law_failures(n: u8)
    ensures
        failure_reason(1) == "insufficient bandwidth"@,
        failure_reason(2) == "insufficient bridge resources"@,
        failure_reason(3) == "insufficient bandwidth for Traffic Class"@,
        failure_reason(4) == "StreamID already in use by another Talker"@,
        failure_reason(5) == "stream destination address already in use"@,
        failure_reason(6) == "stream pre-empted by a higher-rank stream"@,
        failure_reason(7) == "reported latency has changed"@,
        failure_reason(8) == "egress port is not AVB-capable"@,
        failure_reason(9) == "use a different destination address"@,
        failure_reason(10) == "out of MSRP resources"@,
        failure_reason(11) == "out of MMRP resources"@,
        failure_reason(12) == "cannot store destination address"@,
        failure_reason(13) == "requested priority is not an SR Class priority"@,
        failure_reason(14) == "MaxFrameSize too large for the media"@,
        failure_reason(15) == "max fan-in ports limit reached"@,
        failure_reason(16) == "changed FirstValue for a registered StreamID"@,
        failure_reason(17) == "VLAN blocked on this egress port (registration forbidden)"@,
        failure_reason(18) == "VLAN tagging disabled on this egress port"@,
        failure_reason(19) == "SR class priority mismatch"@,
        n == 0 || n > 19 ==> failure_reason(n) == "unknown failure"@,
{
}

// ── Transmitters ─────────────────────────────────────────────────────────────

/// Regular timing tells hardware and irregular timing software; a TTL of 128 tells
/// software where timing is not known, and so does a missing marking, as a hint only.
/// Without any of these nothing is told.
pub proof fn law_timing_tells(s: TransmitterSignals)
    requires
        s.control_plane is None,
    ensures
        s.metronomic == Some(true) ==> (verdict(s) matches Some(v) && v.class is Hardware
            && v.confidence is Inferred && v.signals == 1),
        s.metronomic == Some(false) ==> (verdict(s) matches Some(v) && v.class is Dvs && v.confidence
            is Inferred),
        s.metronomic is None && s.ttl == Some(128u8) ==> (verdict(s) matches Some(v) && v.class is Dvs
            && v.confidence is Inferred),
        s.metronomic is None && s.ttl != Some(128u8) && s.dscp_zero ==> (verdict(s) matches Some(v)
            && v.class is Dvs && v.confidence is Hint),
        s.metronomic is None && s.ttl != Some(128u8) && !s.dscp_zero ==> verdict(s) is None,
{
}

/// Every signal that agrees with the verdict counts: for software irregular timing, a TTL
/// of 128 and a missing marking; for hardware regular timing. The control ports count as
/// one.
pub proof fn law_signals_are_counted(s: TransmitterSignals)
    ensures
        ({
            let irregular = if s.metronomic == Some(false) {
                1int
            } else {
                0
            };
            let ttl = if s.ttl == Some(128u8) {
                1int
            } else {
                0
            };
            let unmarked = if s.dscp_zero {
                1int
            } else {
                0
            };
            let port = if s.control_plane is Some {
                1int
            } else {
                0
            };
            let regular = if s.metronomic == Some(true) {
                1int
            } else {
                0
            };
            verdict(s) matches Some(v) ==> v.signals == (if v.class is Hardware {
                port + regular
            } else {
                port + irregular + ttl + unmarked
            })
        }),
{
}

/// Software is told by its control ports, by irregular timing, or by a TTL of 128 where
/// timing is not known; never by its marking.
pub proof fn law_software_is_told(s: TransmitterSignals)
    ensures
        software(s) <==> (match s.control_plane {
            Some(c) => c is Dvs || c is Via,
            None => s.metronomic == Some(false) || s.metronomic is None && s.ttl == Some(128u8),
        }),
{
}

} // verus!
