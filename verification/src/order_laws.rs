//! What comes before what.

use vstd::prelude::*;

use crate::net::Ipv4Addr;
use crate::order::{bytes_leq, text_leq, Ranked};
use crate::report::streams::{group, StreamKey};
use crate::stats::avtp::{AvdeccEntity, AvtpStreamStats};

verus! {

/// Of two texts the first place in which they differ decides, and a text comes before
/// those that go on behind it.
pub proof fn law_texts_by_the_first_difference(p: Seq<char>, a: char, s: Seq<char>, b: char, t: Seq<char>)
    ensures
        a != b ==> (text_leq(p.push(a) + s, p.push(b) + t) <==> (a as u32) < (b as u32)),
        text_leq(p, p + s),
        s.len() > 0 ==> !text_leq(p + s, p),
    decreases p.len(),
{
    let x = p.push(a) + s;
    let y = p.push(b) + t;
    if p.len() == 0 {
        assert(x[0] == a && y[0] == b);
    } else {
        let q = p.skip(1);
        law_texts_by_the_first_difference(q, a, s, b, t);
        assert(x.skip(1) =~= q.push(a) + s);
        assert(y.skip(1) =~= q.push(b) + t);
        assert((p + s).skip(1) =~= q + s);
        assert(x[0] == p[0] && y[0] == p[0]);
        assert((p + s)[0] == p[0]);
    }
}

/// The same of bytes.
pub proof fn law_bytes_by_the_first_difference(p: Seq<u8>, a: u8, s: Seq<u8>, b: u8, t: Seq<u8>)
    ensures
        a != b ==> (bytes_leq(p.push(a) + s, p.push(b) + t) <==> a < b),
        bytes_leq(p, p + s),
    decreases p.len(),
{
    let x = p.push(a) + s;
    let y = p.push(b) + t;
    if p.len() == 0 {
        assert(x[0] == a && y[0] == b);
    } else {
        let q = p.skip(1);
        law_bytes_by_the_first_difference(q, a, s, b, t);
        assert(x.skip(1) =~= q.push(a) + s);
        assert(y.skip(1) =~= q.push(b) + t);
        assert((p + s).skip(1) =~= q + s);
        assert(x[0] == p[0] && y[0] == p[0]);
        assert((p + s)[0] == p[0]);
    }
}

/// Addresses come in the order of their numbers, and clock domains in that of theirs and
/// then of their versions.
pub proof fn law_numbers_in_order(x: Ipv4Addr, y: Ipv4Addr, k: (u8, u8), l: (u8, u8))
    ensures
        <Ipv4Addr as Ranked>::leq(x, y) <==> x.a < y.a || x.a == y.a && (x.b < y.b || x.b == y.b && (x.c
            < y.c || x.c == y.c && x.d <= y.d)),
        <(u8, u8) as Ranked>::leq(k, l) <==> k.0 < l.0 || k.0 == l.0 && k.1 <= l.1,
{
}

/// Streams come by protocol: AES67, Dante, NDI, ST 2110, AVB, and then the rest; those of
/// one protocol come by name.
pub proof fn law_streams_by_protocol(a: Seq<char>, b: Seq<char>)
    ensures
        group("AES67"@ + a) == 0,
        group("Dante"@ + a) == 1,
        group("NDI"@ + a) == 2,
        group("ST"@ + a) == 3,
        group("AVB"@ + a) == 4,
        group("TCP"@ + a) == 5,
        group(a) < group(b) ==> <StreamKey as Ranked>::leq(a, b) && !<StreamKey as Ranked>::leq(b, a),
        group(a) == group(b) ==> (<StreamKey as Ranked>::leq(a, b) <==> text_leq(a, b)),
{
    reveal_strlit("AES67");
    reveal_strlit("Dante");
    reveal_strlit("NDI");
    reveal_strlit("ST");
    reveal_strlit("AVB");
    reveal_strlit("TCP");
    lemma_begins("AES67"@, a);
    lemma_begins("Dante"@, a);
    lemma_begins("NDI"@, a);
    lemma_begins("ST"@, a);
    lemma_begins("AVB"@, a);
    lemma_begins("TCP"@, a);
}

proof fn lemma_begins(p: Seq<char>, a: Seq<char>)
    requires
        p == "AES67"@ || p == "Dante"@ || p == "NDI"@ || p == "ST"@ || p == "AVB"@ || p == "TCP"@,
    ensures
        crate::scan::begins(p + a, p),
        p[0] != 'A' || p[1] != 'E' ==> !crate::scan::begins(p + a, "AES67"@),
        p[0] != 'D' ==> !crate::scan::begins(p + a, "Dante"@),
        p[0] != 'N' ==> !crate::scan::begins(p + a, "NDI"@),
        p[0] != 'S' ==> !crate::scan::begins(p + a, "ST"@),
        p[0] != 'A' || p[1] != 'V' ==> !crate::scan::begins(p + a, "AVB"@),
{
    reveal_strlit("AES67");
    reveal_strlit("Dante");
    reveal_strlit("NDI");
    reveal_strlit("ST");
    reveal_strlit("AVB");
    reveal_strlit("TCP");
    let s = p + a;
    assert(s.subrange(0, p.len() as int) =~= p);
    assert(s[0] == p[0] && s[1] == p[1]);
    lemma_letters(s, "AES67"@);
    lemma_letters(s, "Dante"@);
    lemma_letters(s, "NDI"@);
    lemma_letters(s, "ST"@);
    lemma_letters(s, "AVB"@);
}

proof fn lemma_letters(s: Seq<char>, p: Seq<char>)
    requires
        p.len() >= 2,
    ensures
        crate::scan::begins(s, p) ==> s[0] == p[0] && s[1] == p[1],
{
    if crate::scan::begins(s, p) {
        let t = s.subrange(0, p.len() as int);
        assert(t[0] == s[0] && t[1] == s[1]);
    }
}

/// AVB streams and entities come by their identifiers.
pub proof fn law_avb_by_identifier(a: AvtpStreamStats, b: AvtpStreamStats, e: AvdeccEntity, f: AvdeccEntity)
    ensures
        <AvtpStreamStats as Ranked>::leq(a, b) <==> bytes_leq(a.stream_id@, b.stream_id@),
        <AvdeccEntity as Ranked>::leq(e, f) <==> bytes_leq(e.entity_id@, f.entity_id@),
{
}

} // verus!
