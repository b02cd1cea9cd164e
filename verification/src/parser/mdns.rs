//! Names of service instances in mDNS messages: Dante's `_netaudio` services
//! and NDI's `_ndi`.

use vstd::prelude::*;
use vstd::slice::slice_subrange;

use crate::parser::bytes::{be16, read16, same_bytes};
use crate::scan::{label, opt_text, read_label};

verus! {

/// The label `_netaudio` with its length before it.
pub open spec fn netaudio() -> Seq<u8> {
    seq![0x09u8, 0x5f, 0x6e, 0x65, 0x74, 0x61, 0x75, 0x64, 0x69, 0x6f]
}

/// The label `_netaudio-cmc` with its length before it.
pub open spec fn netaudio_cmc() -> Seq<u8> {
    seq![0x0du8, 0x5f, 0x6e, 0x65, 0x74, 0x61, 0x75, 0x64, 0x69, 0x6f, 0x2d, 0x63, 0x6d, 0x63]
}

/// The label `_netaudio-arc` with its length before it.
pub open spec fn netaudio_arc() -> Seq<u8> {
    seq![0x0du8, 0x5f, 0x6e, 0x65, 0x74, 0x61, 0x75, 0x64, 0x69, 0x6f, 0x2d, 0x61, 0x72, 0x63]
}

/// The label `_ndi` with its length before it.
pub open spec fn ndi() -> Seq<u8> {
    seq![0x04u8, 0x5f, 0x6e, 0x64, 0x69]
}

fn netaudio_label() -> (v: Vec<u8>)
    ensures
        v@ == netaudio(),
{
    let v: Vec<u8> = vec![0x09, 0x5f, 0x6e, 0x65, 0x74, 0x61, 0x75, 0x64, 0x69, 0x6f];
    assert(v@ =~= netaudio());
    v
}

fn netaudio_cmc_label() -> (v: Vec<u8>)
    ensures
        v@ == netaudio_cmc(),
{
    let v: Vec<u8> = vec![
        0x0d, 0x5f, 0x6e, 0x65, 0x74, 0x61, 0x75, 0x64, 0x69, 0x6f, 0x2d, 0x63, 0x6d, 0x63,
    ];
    assert(v@ =~= netaudio_cmc());
    v
}

fn netaudio_arc_label() -> (v: Vec<u8>)
    ensures
        v@ == netaudio_arc(),
{
    let v: Vec<u8> = vec![
        0x0d, 0x5f, 0x6e, 0x65, 0x74, 0x61, 0x75, 0x64, 0x69, 0x6f, 0x2d, 0x61, 0x72, 0x63,
    ];
    assert(v@ =~= netaudio_arc());
    v
}

fn ndi_label() -> (v: Vec<u8>)
    ensures
        v@ == ndi(),
{
    let v: Vec<u8> = vec![0x04, 0x5f, 0x6e, 0x64, 0x69];
    assert(v@ =~= ndi());
    v
}

/// Whether `needle` stands at `i`.
pub open spec fn stands_at(p: Seq<u8>, needle: Seq<u8>, i: int) -> bool {
    0 <= i && i + needle.len() <= p.len() && p.subrange(i, i + needle.len()) == needle
}

/// Whether `needle` stands somewhere.
pub open spec fn occurs(p: Seq<u8>, needle: Seq<u8>) -> bool {
    exists|i: int| stands_at(p, needle, i)
}

/// Where `needle` first stands, from `from` on.
pub open spec fn occurrence(p: Seq<u8>, needle: Seq<u8>, from: int) -> Option<int>
    decreases p.len() - from,
{
    if from < 0 || from + needle.len() > p.len() {
        None
    } else if stands_at(p, needle, from) {
        Some(from)
    } else if from == p.len() {
        None
    } else {
        occurrence(p, needle, from + 1)
    }
}

proof fn lemma_occurrence(p: Seq<u8>, needle: Seq<u8>, from: int, i: int)
    requires
        0 <= from <= i <= p.len(),
        forall|j: int| from <= j < i ==> !stands_at(p, needle, j),
    ensures
        occurrence(p, needle, from) == occurrence(p, needle, i),
    decreases i - from,
{
    if from < i {
        assert(!stands_at(p, needle, from));
        lemma_occurrence(p, needle, from + 1, i);
    }
}

fn position_of(p: &[u8], needle: &[u8]) -> (r: Option<usize>)
    requires
        needle@.len() > 0,
    ensures
        match r {
            Some(i) => occurrence(p@, needle@, 0) == Some(i as int) && stands_at(
                p@,
                needle@,
                i as int,
            ),
            None => occurrence(p@, needle@, 0) is None && !occurs(p@, needle@),
        },
{
    let n: usize = needle.len();
    if p.len() < n {
        return None;
    }
    let mut i: usize = 0;
    while i <= p.len() - n
        invariant
            0 < n == needle@.len() <= p@.len(),
            i <= p@.len() - n + 1,
            forall|j: int| 0 <= j < i ==> !stands_at(p@, needle@, j),
        decreases p@.len() - n + 1 - i,
    {
        if same_bytes(slice_subrange(p, i, i + n), needle) {
            proof {
                assert(stands_at(p@, needle@, i as int));
                lemma_occurrence(p@, needle@, 0, i as int);
            }
            return Some(i);
        }
        assert(!stands_at(p@, needle@, i as int));
        i += 1;
    }
    proof {
        lemma_occurrence(p@, needle@, 0, i as int);
    }
    None
}

/// Whether a message has the given bytes in it.
pub fn mdns_contains(payload: &[u8], service: &[u8]) -> (r: bool)
    requires
        service@.len() > 0,
    ensures
        r == occurs(payload@, service@),
{
    match position_of(payload, service) {
        Some(_) => true,
        None => false,
    }
}

/// The label that ends at `pos`: the longest of at most `n` bytes with its own
/// length before it that is readable.
pub open spec fn label_before(p: Seq<u8>, pos: int, n: nat) -> Option<Seq<char>>
    decreases n,
{
    if n == 0 {
        None
    } else if pos >= n + 1 && p[pos - n - 1] == n && label(p.subrange(pos - n, pos)) is Some {
        label(p.subrange(pos - n, pos))
    } else {
        label_before(p, pos, (n - 1) as nat)
    }
}

/// The label right before the first `needle`.
pub open spec fn instance_name(p: Seq<u8>, needle: Seq<u8>) -> Option<Seq<char>> {
    match occurrence(p, needle, 0) {
        Some(pos) => label_before(p, pos, 63),
        None => None,
    }
}

/// Reads the instance name right before a service label, where the labels stand
/// uncompressed.
pub fn extract_mdns_instance_name(payload: &[u8], service_needle: &[u8]) -> (r: Option<String>)
    requires
        service_needle@.len() > 0,
    ensures
        opt_text(r) == instance_name(payload@, service_needle@),
{
    let pos: usize = match position_of(payload, service_needle) {
        Some(pos) => pos,
        None => {
            return None;
        },
    };
    let mut n: usize = 63;
    while n > 0
        invariant
            n <= 63,
            pos <= payload@.len(),
            label_before(payload@, pos as int, n as nat) == label_before(payload@, pos as int, 63),
            instance_name(payload@, service_needle@) == label_before(payload@, pos as int, 63),
        decreases n,
    {
        if pos >= n + 1 && payload[pos - n - 1] as usize == n {
            let found: Option<String> = read_label(slice_subrange(payload, pos - n, pos));
            if found.is_some() {
                return found;
            }
        }
        n -= 1;
    }
    None
}

/// Where a DNS name that begins at `off` ends: behind its root label or behind
/// a compression pointer.
pub open spec fn name_end(p: Seq<u8>, off: int) -> Option<int>
    decreases p.len() - off,
{
    if off < 0 || off >= p.len() {
        None
    } else if p[off] == 0 {
        Some(off + 1)
    } else if p[off] >= 0xC0 {
        Some(off + 2)
    } else if p[off] >= 0x40 || off + 1 + p[off] >= p.len() {
        None
    } else {
        name_end(p, off + 1 + p[off])
    }
}

/// Finds the end of a DNS name. An end beyond the addressable range counts as
/// none.
pub fn skip_dns_name(packet: &[u8], off: usize) -> (r: Option<usize>)
    ensures
        match r {
            Some(e) => name_end(packet@, off as int) == Some(e as int),
            None => match name_end(packet@, off as int) {
                Some(e) => e > usize::MAX,
                None => true,
            },
        },
{
    let n: usize = packet.len();
    let mut at: usize = off;
    while at < n
        invariant
            n == packet@.len(),
            name_end(packet@, at as int) == name_end(packet@, off as int),
        decreases n - at,
    {
        let b: u8 = packet[at];
        if b == 0 {
            return Some(at + 1);
        }
        if b >= 0xC0 {
            return at.checked_add(2);
        }
        if b >= 0x40 || n - at - 1 <= b as usize {
            return None;
        }
        at = at + 1 + b as usize;
    }
    None
}

/// The readable label at `off`.
pub open spec fn label_at(p: Seq<u8>, off: int) -> Option<Seq<char>> {
    if 0 <= off < p.len() && 0 < p[off] <= 63 && off + 1 + p[off] <= p.len() {
        label(p.subrange(off + 1, off + 1 + p[off]))
    } else {
        None
    }
}

/// Reads the first label of the DNS name at `off`.
pub fn first_dns_label(packet: &[u8], off: usize) -> (r: Option<String>)
    ensures
        opt_text(r) == label_at(packet@, off as int),
{
    let n: usize = packet.len();
    if off >= n {
        return None;
    }
    let len: usize = packet[off] as usize;
    if len == 0 || len > 63 || n - off - 1 < len {
        return None;
    }
    read_label(slice_subrange(packet, off + 1, off + 1 + len))
}

/// Where the answers begin behind `count` questions from `off` on.
pub open spec fn questions_end(p: Seq<u8>, off: int, count: nat) -> Option<int>
    decreases count,
{
    if count == 0 {
        Some(off)
    } else {
        match name_end(p, off) {
            Some(e) => questions_end(p, e + 4, (count - 1) as nat),
            None => None,
        }
    }
}

/// The instance that the first readable pointer record names, among `count`
/// answers from `off` on.
pub open spec fn pointer_name(p: Seq<u8>, off: int, count: nat) -> Option<Seq<char>>
    decreases count,
{
    if count == 0 {
        None
    } else {
        match name_end(p, off) {
            Some(e) => if e + 10 > p.len() {
                None
            } else if be16(p, e) == 12 && label_at(p, e + 10) is Some {
                label_at(p, e + 10)
            } else if e + 10 + be16(p, e + 8) > p.len() {
                None
            } else {
                pointer_name(p, e + 10 + be16(p, e + 8), (count - 1) as nat)
            },
            None => None,
        }
    }
}

/// The instance that a DNS response names in its pointer records.
pub open spec fn response_name(p: Seq<u8>) -> Option<Seq<char>> {
    if p.len() < 12 {
        None
    } else {
        match questions_end(p, 12, be16(p, 4) as nat) {
            Some(off) => pointer_name(p, off, be16(p, 6) as nat),
            None => None,
        }
    }
}

proof fn lemma_pointer_name_outside(p: Seq<u8>, off: int, count: nat)
    requires
        off >= p.len(),
    ensures
        pointer_name(p, off, count) is None,
{
}

proof fn lemma_questions_outside(p: Seq<u8>, off: int, count: nat)
    requires
        off >= p.len(),
    ensures
        count > 0 ==> questions_end(p, off, count) is None,
        count == 0 ==> questions_end(p, off, count) == Some(off),
{
}

/// Reads the instance name from the pointer records of a response, whose service
/// labels may be compressed away.
pub fn extract_instance_from_ptr_response(payload: &[u8]) -> (r: Option<String>)
    ensures
        opt_text(r) == response_name(payload@),
{
    let p: &[u8] = payload;
    let n: usize = p.len();
    if n < 12 {
        return None;
    }
    let questions: u16 = read16(p, 4);
    let answers: u16 = read16(p, 6);
    let mut off: usize = 12;
    let mut left: u16 = questions;
    while left > 0
        invariant
            p@ == payload@,
            n == p@.len(),
            n >= 12,
            off <= n,
            response_name(p@) == (match questions_end(p@, off as int, left as nat) {
                Some(o) => pointer_name(p@, o, be16(p@, 6) as nat),
                None => None,
            }),
        decreases left,
    {
        match skip_dns_name(p, off) {
            Some(e) => {
                if e > n || n - e < 4 {
                    proof {
                        lemma_questions_outside(p@, e + 4, (left - 1) as nat);
                        lemma_pointer_name_outside(p@, e + 4, be16(p@, 6) as nat);
                    }
                    return None;
                }
                off = e + 4;
            },
            None => {
                proof {
                    match name_end(p@, off as int) {
                        Some(e) => {
                            lemma_questions_outside(p@, e + 4, (left - 1) as nat);
                            lemma_pointer_name_outside(p@, e + 4, be16(p@, 6) as nat);
                        },
                        None => {},
                    }
                }
                return None;
            },
        }
        left -= 1;
    }
    let mut left: u16 = answers;
    while left > 0
        invariant
            p@ == payload@,
            n == p@.len(),
            off <= n,
            response_name(p@) == pointer_name(p@, off as int, left as nat),
        decreases left,
    {
        let e: usize = match skip_dns_name(p, off) {
            Some(e) => e,
            None => {
                return None;
            },
        };
        if e > n || n - e < 10 {
            return None;
        }
        if read16(p, e) == 12 {
            let found: Option<String> = first_dns_label(p, e + 10);
            if found.is_some() {
                return found;
            }
        }
        let len: usize = read16(p, e + 8) as usize;
        if n - e - 10 < len {
            return None;
        }
        off = e + 10 + len;
        left -= 1;
    }
    None
}

/// The name of the Dante device that a message is from.
pub open spec fn dante_name(p: Seq<u8>) -> Option<Seq<char>> {
    if instance_name(p, netaudio_cmc()) is Some {
        instance_name(p, netaudio_cmc())
    } else if instance_name(p, netaudio_arc()) is Some {
        instance_name(p, netaudio_arc())
    } else if instance_name(p, netaudio()) is Some {
        instance_name(p, netaudio())
    } else {
        response_name(p)
    }
}

/// Reads the name of the Dante device that a message is from: before a service
/// label where they stand uncompressed, else from the pointer records.
pub fn extract_dante_name(payload: &[u8]) -> (r: Option<String>)
    ensures
        opt_text(r) == dante_name(payload@),
{
    let cmc: Option<String> = extract_mdns_instance_name(payload, netaudio_cmc_label().as_slice());
    if cmc.is_some() {
        return cmc;
    }
    let arc: Option<String> = extract_mdns_instance_name(payload, netaudio_arc_label().as_slice());
    if arc.is_some() {
        return arc;
    }
    let plain: Option<String> = extract_mdns_instance_name(payload, netaudio_label().as_slice());
    if plain.is_some() {
        return plain;
    }
    extract_instance_from_ptr_response(payload)
}

/// Reads the name of the NDI source that a message is from.
pub fn extract_ndi_name(payload: &[u8]) -> (r: Option<String>)
    ensures
        opt_text(r) == instance_name(payload@, ndi()),
{
    extract_mdns_instance_name(payload, ndi_label().as_slice())
}

/// A message that has some Dante service label.
pub open spec fn dante_message(p: Seq<u8>) -> bool {
    occurs(p, netaudio()) || occurs(p, netaudio_cmc()) || occurs(p, netaudio_arc())
}

/// Whether a message has some Dante service label.
pub fn is_dante_message(p: &[u8]) -> (r: bool)
    ensures
        r == dante_message(p@),
{
    mdns_contains(p, netaudio_label().as_slice()) || mdns_contains(
        p,
        netaudio_cmc_label().as_slice(),
    ) || mdns_contains(p, netaudio_arc_label().as_slice())
}

/// Whether a message has the NDI service label.
pub fn is_ndi_message(p: &[u8]) -> (r: bool)
    ensures
        r == occurs(p@, ndi()),
{
    mdns_contains(p, ndi_label().as_slice())
}

/// A name that was found before a service label is never empty and is printable.
pub proof fn law_names_are_readable(p: Seq<u8>, pos: int, n: nat)
    ensures
        label_before(p, pos, n) matches Some(s) ==> s.len() > 0 && crate::scan::printable(s),
    decreases n,
{
    if n > 0 {
        law_names_are_readable(p, pos, (n - 1) as nat);
    }
}

} // verus!
