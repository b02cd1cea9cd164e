//! The question that is asked at the start, so that devices tell their names.

use vstd::prelude::*;

use crate::net::Ipv4Addr;
use crate::parser::udp_protocol;
use crate::protocols::{chosen, is_chosen, ProtocolChoice, MDNS_PORT};
use crate::scan::{chars_of, parts, spellings, split};
use crate::text::{join, joined, texts};

verus! {

/// A packet that asks for services, and their names.
#[derive(Debug)]
pub struct Probe {
    pub packet: Vec<u8>,
    pub services: String,
}

/// Characters of ASCII as bytes.
pub open spec fn ascii(s: Seq<char>) -> Seq<u8> {
    s.map_values(|c: char| c as u8)
}

/// The labels of a name, each behind its length. Empty ones are left out.
pub open spec fn labels(p: Seq<Seq<char>>) -> Seq<u8>
    decreases p.len(),
{
    if p.len() == 0 {
        Seq::empty()
    } else if p.last().len() == 0 {
        labels(p.drop_last())
    } else {
        labels(p.drop_last()) + seq![p.last().len() as u8] + ascii(p.last())
    }
}

/// The question for a service: its labels, their end, and the type and class of a
/// pointer.
pub open spec fn question(service: Seq<char>) -> Seq<u8> {
    labels(parts(service, '.')) + seq![0u8, 0, 12, 0, 1]
}

/// The questions for services.
pub open spec fn questions(services: Seq<Seq<char>>) -> Seq<u8>
    decreases services.len(),
{
    if services.len() == 0 {
        Seq::empty()
    } else {
        questions(services.drop_last()) + question(services.last())
    }
}

/// The services whose devices are looked for.
pub open spec fn services_for(e: Seq<ProtocolChoice>) -> Seq<Seq<char>> {
    (if chosen(e, ProtocolChoice::Dante) {
        seq!["_netaudio-arc._udp.local"@, "_netaudio-cmc._udp.local"@, "_netaudio._udp.local"@]
    } else {
        Seq::empty()
    }) + (if chosen(e, ProtocolChoice::NDI) {
        seq!["_ndi._tcp.local"@]
    } else {
        Seq::empty()
    })
}

/// The packet: a header that counts the questions, and the questions.
pub open spec fn probe_packet(services: Seq<Seq<char>>) -> Seq<u8> {
    seq![0u8, 0, 0, 0, 0, services.len() as u8, 0, 0, 0, 0, 0, 0] + questions(services)
}

fn push_label(packet: &mut Vec<u8>, l: &Vec<char>)
    ensures
        final(packet)@ == old(packet)@ + (if l@.len() == 0 {
            Seq::empty()
        } else {
            seq![l@.len() as u8] + ascii(l@)
        }),
{
    let n: usize = l.len();
    if n > 0 {
        packet.push(n as u8);
        let ghost front = packet@;
        let mut i: usize = 0;
        assert(ascii(l@).take(0) =~= Seq::empty());
        assert(packet@ =~= front + ascii(l@).take(0));
        while i < n
            invariant
                n == l@.len(),
                i <= n,
                packet@ == front + ascii(l@).take(i as int),
            decreases n - i,
        {
            packet.push(l[i] as u8);
            i += 1;
            assert(packet@ =~= front + ascii(l@).take(i as int));
        }
        assert(ascii(l@).take(i as int) =~= ascii(l@));
    }
    assert(packet@ =~= old(packet)@ + (if l@.len() == 0 {
        Seq::empty()
    } else {
        seq![l@.len() as u8] + ascii(l@)
    }));
}

fn push_question(packet: &mut Vec<u8>, service: &str)
    ensures
        final(packet)@ == old(packet)@ + question(service@),
{
    let c: Vec<char> = chars_of(service);
    let p: Vec<Vec<char>> = split(c.as_slice(), '.');
    let ghost all = spellings(p@);
    let ghost front = packet@;
    let mut i: usize = 0;
    assert(all.take(0) =~= Seq::empty());
    assert(packet@ =~= front + labels(all.take(0)));
    while i < p.len()
        invariant
            all == spellings(p@),
            i <= p@.len(),
            packet@ == front + labels(all.take(i as int)),
        decreases p@.len() - i,
    {
        assert(all.take(i + 1).drop_last() =~= all.take(i as int));
        assert(all.take(i + 1).last() == p@[i as int]@);
        push_label(packet, &p[i]);
        i += 1;
        assert(packet@ =~= front + labels(all.take(i as int)));
    }
    assert(all.take(i as int) =~= all);
    packet.push(0);
    packet.push(0);
    packet.push(12);
    packet.push(0);
    packet.push(1);
    assert(packet@ =~= front + question(service@));
}

/// The packet that asks Dante and NDI devices for their names, if any of them are
/// looked for.
pub fn mdns_startup_probe(expanded: &[ProtocolChoice]) -> (r: Option<Probe>)
    ensures
        match r {
            Some(p) => services_for(expanded@).len() > 0 && p.packet@ == probe_packet(
                services_for(expanded@),
            ) && p.services@ == joined(services_for(expanded@), ", "@),
            None => services_for(expanded@).len() == 0,
        },
{
    let mut services: Vec<String> = Vec::new();
    if is_chosen(expanded, ProtocolChoice::Dante) {
        services.push(String::from_str("_netaudio-arc._udp.local"));
        services.push(String::from_str("_netaudio-cmc._udp.local"));
        services.push(String::from_str("_netaudio._udp.local"));
    }
    if is_chosen(expanded, ProtocolChoice::NDI) {
        services.push(String::from_str("_ndi._tcp.local"));
    }
    let ghost all = texts(services@);
    assert(all =~= services_for(expanded@));
    let n: usize = services.len();
    if n == 0 {
        return None;
    }
    let mut packet: Vec<u8> = vec![0, 0, 0, 0, 0, n as u8, 0, 0, 0, 0, 0, 0];
    let ghost front = packet@;
    let mut i: usize = 0;
    assert(all.take(0) =~= Seq::empty());
    assert(packet@ =~= front + questions(all.take(0)));
    while i < n
        invariant
            all == texts(services@),
            n == services@.len(),
            i <= n,
            packet@ == front + questions(all.take(i as int)),
        decreases n - i,
    {
        assert(all.take(i + 1).drop_last() =~= all.take(i as int));
        assert(all.take(i + 1).last() == services@[i as int]@);
        push_question(&mut packet, services[i].as_str());
        i += 1;
        assert(packet@ =~= front + questions(all.take(i as int)));
    }
    assert(all.take(i as int) =~= all);
    assert(packet@ =~= probe_packet(all));
    Some(Probe { packet, services: join(&services, ", ") })
}

/// The probe is a question: seen by a capture, ours or another, it makes its
/// sender no device.
pub proof fn law_probe_discovers_nothing(
    services: Seq<Seq<char>>,
    src: Ipv4Addr,
    dst: Ipv4Addr,
    src_port: u16,
)
    ensures
        udp_protocol(src, dst, src_port, MDNS_PORT, probe_packet(services)) is None,
{
    assert(probe_packet(services)[2] == 0);
}

} // verus!
