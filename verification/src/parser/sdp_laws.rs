//! What an announcement says, line by line.

use vstd::prelude::*;
use vstd::utf8::{decode_utf8, valid_utf8};

use crate::net::{dotted, Ipv4Addr};
use crate::parser::sdp::{connection_address, last_colon, media_section, payload_types, reference_clock, sap, sap_header, sdp, sdp_mime, with_attribute, with_colons, with_field, with_line, with_lines, zero_place, SdpStateView};
use crate::protocols::SdpMediaView;
use crate::scan::{after, begins, head, is_white, parts, place, scaled, trim, whole, words};
use crate::text::dec;
use crate::text_laws::{law_addresses_read_back, law_numbers_are_digits, law_numbers_read_back, law_parts_stand_between, law_words_end_at_spaces};

verus! {

// ── Packets ──────────────────────────────────────────────────────────────────

/// The media type `application/sdp`, in bytes.
pub open spec fn media_type() -> Seq<u8> {
    seq![0x61u8, 0x70, 0x70, 0x6c, 0x69, 0x63, 0x61, 0x74, 0x69, 0x6f, 0x6e, 0x2f, 0x73, 0x64, 0x70]
}

proof fn lemma_first_zero(b: Seq<u8>, i: int, from: int)
    requires
        0 <= from <= i < b.len(),
        b[i] == 0,
        forall|j: int| from <= j < i ==> b[j] != 0,
    ensures
        zero_place(b, from) == Some(i),
    decreases i - from,
{
    if from < i {
        lemma_first_zero(b, i, from + 1);
    }
}

proof fn lemma_no_zero(b: Seq<u8>, from: int)
    requires
        0 <= from,
        forall|j: int| from <= j < b.len() ==> b[j] != 0,
    ensures
        zero_place(b, from) is None,
    decreases b.len() - from,
{
    if from < b.len() {
        lemma_no_zero(b, from + 1);
    }
}

/// A media type and a zero byte before the text are passed over: the packet announces
/// what it would without them.
pub proof fn law_media_type_is_passed_over(h: Seq<u8>, d: Seq<u8>)
    requires
        h.len() >= 8,
        h.len() == (if h[0] / 16 % 2 == 0 {
            8 + 4 * h[1]
        } else {
            20 + 4 * h[1]
        }),
        d.len() > 0,
        d.len() < 15 || d.subrange(0, 15) != media_type(),
    ensures
        sap(h + (media_type().push(0) + d)) == sap(h + d),
{
    let body = media_type().push(0) + d;
    let p = h + body;
    let q = h + d;
    assert(p[0] == h[0] && p[1] == h[1] && q[0] == h[0] && q[1] == h[1]);
    assert(p.skip(h.len() as int) =~= body);
    assert(q.skip(h.len() as int) =~= d);
    assert(body.subrange(0, 15) =~= sdp_mime());
    assert(body[15] == 0);
    assert forall|j: int| 0 <= j < 15 implies body[j] != 0 by {
        assert(body[j] == sdp_mime()[j]);
    }
    lemma_first_zero(body, 15, 0);
    assert(body.skip(16) =~= d);
}

/// Whatever media type a text beginning with this one is given, it ends at the first
/// zero byte, and without one the whole is text.
pub proof fn law_media_type_ends_at_zero(h: Seq<u8>, more: Seq<u8>, d: Seq<u8>)
    requires
        h.len() >= 8,
        h.len() == (if h[0] / 16 % 2 == 0 {
            8 + 4 * h[1]
        } else {
            20 + 4 * h[1]
        }),
        forall|i: int| 0 <= i < more.len() ==> more[i] != 0,
    ensures
        sap(h + (media_type() + more).push(0) + d) == sap(h + media_type().push(0) + d),
        h[0] / 32 == 1 && h[0] / 4 % 2 == 0 && valid_utf8(media_type() + more) ==> sap(
            h + (media_type() + more),
        ) == Some(sdp(decode_utf8(media_type() + more))),
{
    let a = (media_type() + more).push(0) + d;
    let b = media_type().push(0) + d;
    let c = media_type() + more;
    let p = h + (media_type() + more).push(0) + d;
    let q = h + media_type().push(0) + d;
    assert(p =~= h + a);
    assert(q =~= h + b);
    assert(p.skip(h.len() as int) =~= a);
    assert(q.skip(h.len() as int) =~= b);
    assert((h + c).skip(h.len() as int) =~= c);
    assert(a.subrange(0, 15) =~= sdp_mime());
    assert(b.subrange(0, 15) =~= sdp_mime());
    assert(c.subrange(0, 15) =~= sdp_mime());
    let n = 15 + more.len() as int;
    assert forall|j: int| 0 <= j < n implies c[j] != 0 && a[j] == c[j] by {
        if j < 15 {
            assert(c[j] == sdp_mime()[j]);
        } else {
            assert(c[j] == more[j - 15]);
        }
    }
    assert(a[n] == 0 && b[15] == 0);
    lemma_first_zero(a, n, 0);
    assert forall|j: int| 0 <= j < 15 implies b[j] != 0 by {
        assert(b[j] == sdp_mime()[j]);
    }
    lemma_first_zero(b, 15, 0);
    lemma_no_zero(c, 0);
    assert(a.skip(n + 1) =~= d);
    assert(b.skip(16) =~= d);
    assert(p[0] == h[0] && p[1] == h[1] && q[0] == h[0] && q[1] == h[1]);
    assert((h + c)[0] == h[0] && (h + c)[1] == h[1]);
}

/// A text alone behind the header is the description.
pub proof fn law_text_alone_is_announced(h: Seq<u8>, d: Seq<u8>)
    requires
        h.len() >= 8,
        h.len() == (if h[0] / 16 % 2 == 0 {
            8 + 4 * h[1]
        } else {
            20 + 4 * h[1]
        }),
        h[0] / 32 == 1,
        h[0] / 4 % 2 == 0,
        d.len() > 0,
        d.len() < 15 || d.subrange(0, 15) != media_type(),
    ensures
        valid_utf8(d) ==> sap(h + d) == Some(sdp(decode_utf8(d))),
        !valid_utf8(d) ==> sap(h + d) is None,
{
    let p = h + d;
    assert(p[0] == h[0] && p[1] == h[1]);
    assert(p.skip(h.len() as int) =~= d);
}

/// A packet of another version, one that takes an announcement back, and one that ends
/// with its header announce nothing.
pub proof fn law_other_packets_announce_nothing(p: Seq<u8>)
    ensures
        p.len() < 8 ==> sap(p) is None,
        p.len() > 0 && (p[0] < 0x20 || p[0] >= 0x40) ==> sap(p) is None,
        p.len() > 0 && p[0] % 8 >= 4 ==> sap(p) is None,
        p.len() >= 8 && p[0] / 16 % 2 == 0 && p.len() <= 8 + 4 * p[1] ==> sap(p) is None,
        p.len() >= 8 && p[0] / 16 % 2 == 1 && p.len() <= 20 + 4 * p[1] ==> sap(p) is None,
{
}

/// Authentication data is passed over, four bytes for each unit of its length.
pub proof fn law_authentication_is_passed_over(h: Seq<u8>, data: Seq<u8>, body: Seq<u8>)
    requires
        h.len() == 8,
        h[0] / 16 % 2 == 0,
        data.len() == 4 * h[1],
    ensures
        sap(h + data + body) == sap(h.update(1, 0) + body),
{
    let p = h + data + body;
    let q = h.update(1, 0) + body;
    assert(p[0] == h[0] && p[1] == h[1] && q[0] == h[0] && q[1] == 0);
    assert(p.skip(sap_header(p)) =~= body);
    assert(q.skip(sap_header(q)) =~= body);
}

/// The sender's address takes four bytes, or sixteen where its bit is set; what follows
/// is read alike.
pub proof fn law_either_address_is_passed_over(h: Seq<u8>, short: Seq<u8>, long: Seq<u8>, body: Seq<u8>)
    requires
        h.len() == 4,
        h[0] < 0xF0,
        h[0] / 16 % 2 == 0,
        h[1] == 0,
        short.len() == 4,
        long.len() == 16,
    ensures
        sap(h.update(0, (h[0] + 16) as u8) + long + body) == sap(h + short + body),
{
    let p = h.update(0, (h[0] + 16) as u8) + long + body;
    let q = h + short + body;
    assert(p[0] == h[0] + 16 && p[1] == 0 && q[0] == h[0] && q[1] == 0);
    assert(p.skip(20) =~= body);
    assert(q.skip(8) =~= body);
}

// ── Lines ────────────────────────────────────────────────────────────────────

proof fn lemma_lines_before(a: Seq<Seq<char>>, b: Seq<Seq<char>>, n: nat)
    requires
        n <= a.len(),
    ensures
        with_lines(a + b, n) == with_lines(a, n),
    decreases n,
{
    if n > 0 {
        lemma_lines_before(a, b, (n - 1) as nat);
    }
}

proof fn lemma_place_ahead(a: Seq<char>, b: Seq<char>, c: char)
    ensures
        place(a, c) is Some ==> place(a + b, c) == place(a, c),
        place(a, c) matches Some(i) ==> 0 <= i < a.len(),
    decreases a.len(),
{
    if a.len() > 0 {
        assert((a + b)[0] == a[0]);
        assert((a + b).skip(1) =~= a.skip(1) + b);
        lemma_place_ahead(a.skip(1), b, c);
    }
}

proof fn lemma_no_place(a: Seq<char>, c: char, i: int)
    requires
        place(a, c) is None,
        0 <= i < a.len(),
    ensures
        a[i] != c,
    decreases a.len(),
{
    if i > 0 {
        assert(a.skip(1)[i - 1] == a[i]);
        lemma_no_place(a.skip(1), c, i - 1);
    }
}

proof fn lemma_parts_behind(t: Seq<char>, l: Seq<char>, c: char)
    requires
        forall|i: int| 0 <= i < l.len() ==> l[i] != c,
    ensures
        parts(t.push(c) + l, c) == parts(t, c).push(l),
    decreases t.len(),
{
    let s = t.push(c) + l;
    match place(t, c) {
        None => {
            assert forall|i: int| 0 <= i < t.len() implies t[i] != c by {
                lemma_no_place(t, c, i);
            }
            law_parts_stand_between(t, c, l);
            law_parts_stand_between(l, c, l);
            assert(parts(s, c) =~= seq![t].push(l));
        },
        Some(i) => {
            let rest = seq![c] + l;
            assert(s =~= t + rest);
            lemma_place_ahead(t, rest, c);
            assert(head(s, c) =~= head(t, c));
            let u = t.skip(i + 1);
            assert(s.skip(i + 1) =~= u.push(c) + l);
            lemma_parts_behind(u, l, c);
            assert(parts(t, c) =~= seq![head(t, c)] + parts(u, c));
            assert(parts(s, c) =~= seq![head(t, c)] + parts(u, c).push(l));
            assert(parts(s, c) =~= parts(t, c).push(l));
        },
    }
}

/// What is known when a text has been read.
pub open spec fn read(t: Seq<char>) -> SdpStateView {
    with_lines(parts(t, '\n'), parts(t, '\n').len())
}

/// A text is read line by line, from the first to the last, and the section that is open
/// at the end belongs to it.
pub proof fn law_lines_are_read_in_turn(t: Seq<char>, l: Seq<char>)
    requires
        forall|i: int| 0 <= i < l.len() ==> l[i] != '\n',
    ensures
        read(t.push('\n') + l) == with_line(read(t), l),
        sdp(t).session_id == read(t).session_id,
        sdp(t).session_name == read(t).session_name,
        sdp(t).info == read(t).info,
        sdp(t).media == (match read(t).open {
            Some(m) => read(t).media.push(m),
            None => read(t).media,
        }),
        sdp(Seq::empty()).media.len() == 0,
{
    lemma_parts_behind(t, l, '\n');
    let a = parts(t, '\n');
    let n = a.len();
    assert(a.push(l) =~= a + seq![l]);
    lemma_lines_before(a, seq![l], n);
    assert(a.push(l)[n as int] == l);
    let none = Seq::<char>::empty();
    law_parts_stand_between(none, '\n', none);
    reveal_with_fuel(with_lines, 2);
    assert(parts(none, '\n')[0] == none);
}

/// A line is a letter, an equals sign and a value, with white space around it; any other
/// line says nothing.
pub proof fn law_lines_have_a_letter(st: SdpStateView, l: Seq<char>)
    ensures
        trim(l).len() < 2 ==> with_line(st, l) == st,
        trim(l).len() >= 2 && trim(l)[1] != '=' ==> with_line(st, l) == st,
        trim(l).len() >= 2 && trim(l)[1] == '=' ==> with_line(st, l) == with_field(
            st,
            trim(l)[0],
            trim(l).skip(2),
        ),
{
}

/// `s=` names the session and `i=` describes it, but within a section `i=` says nothing
/// of the session. Neither touches anything else.
pub proof fn law_session_is_named(st: SdpStateView, v: Seq<char>)
    ensures
        with_field(st, 's', v) == (SdpStateView { session_name: v, ..st }),
        st.open is None ==> with_field(st, 'i', v) == (SdpStateView { info: v, ..st }),
        st.open is Some ==> with_field(st, 'i', v) == st,
        forall|k: char|
            k != 'o' && k != 's' && k != 'i' && k != 'm' && k != 'c' && k != 'a'
                ==> #[trigger] with_field(st, k, v) == st,
{
}

/// The second word of `o=` is the identifier of the session.
pub proof fn law_session_is_identified(st: SdpStateView, user: Seq<char>, id: Seq<char>, rest: Seq<char>)
    requires
        forall|i: int| 0 <= i < user.len() ==> user[i] != ' ',
        forall|i: int| 0 <= i < id.len() ==> id[i] != ' ',
    ensures
        with_field(st, 'o', user.push(' ') + (id.push(' ') + rest)) == (SdpStateView {
            session_id: id,
            ..st
        }),
        with_field(st, 'o', user.push(' ') + id) == (SdpStateView { session_id: id, ..st }),
        with_field(st, 'o', user) == st,
{
    law_parts_stand_between(user, ' ', id.push(' ') + rest);
    law_parts_stand_between(user, ' ', id);
    law_parts_stand_between(id, ' ', rest);
}

/// `m=` ends the section before it and opens one, with its kind, its port and its payload
/// types; of what it does not name, nothing is known. With less than four words it opens
/// none.
pub proof fn law_sections_are_opened(st: SdpStateView, v: Seq<char>)
    ensures
        ({
            let w = words(v);
            let next = with_field(st, 'm', v);
            &&& st.open is Some ==> next.media == st.media.push(st.open.unwrap())
            &&& st.open is None ==> next.media == st.media
            &&& next.session_id == st.session_id && next.session_name == st.session_name && next.info
                == st.info
            &&& next.open is Some <==> w.len() >= 4
            &&& next.open matches Some(m) ==> {
                &&& m.media_type == w[0]
                &&& whole(w[1], 65535) matches Some(n) ==> m.port == n
                &&& whole(w[1], 65535) is None ==> m.port == 0
                &&& m.payload_types == payload_types(w.skip(3))
                &&& m.connection.len() == 0 && m.rtpmap.len() == 0 && m.ts_refclk.len() == 0
                    && m.mediaclk.len() == 0
                &&& m.clock_uhz == 0 && m.channels == 0 && m.ptime_ns == 0
            }
        }),
{
    lemma_whole_bound(words(v)[1], 65535);
}

proof fn lemma_whole_bound(s: Seq<char>, max: nat)
    ensures
        whole(s, max) matches Some(n) ==> n <= max,
{
}

/// Every word behind the third that is a number up to 255 is a payload type, in order.
pub proof fn law_payload_types_are_numbers(w: Seq<Seq<char>>, x: Seq<char>)
    ensures
        payload_types(Seq::empty()) == Seq::<u8>::empty(),
        whole(x, 255) matches Some(n) ==> payload_types(w.push(x)) == payload_types(w).push(n as u8),
        whole(x, 255) is None ==> payload_types(w.push(x)) == payload_types(w),
{
    assert(w.push(x).drop_last() =~= w);
}

/// A section of audio or video, with its port and one payload type, reads as written.
pub proof fn law_sections_read_back(kind: Seq<char>, port: u16, profile: Seq<char>, pt: u8)
    requires
        kind.len() > 0,
        profile.len() > 0,
        forall|i: int| 0 <= i < kind.len() ==> !is_white(#[trigger] kind[i]),
        forall|i: int| 0 <= i < profile.len() ==> !is_white(#[trigger] profile[i]),
    ensures
        media_section(
            kind.push(' ') + (dec(port as nat).push(' ') + (profile.push(' ') + dec(pt as nat))),
        ) matches Some(m) && m.media_type == kind && m.port == port && m.payload_types == seq![pt],
{
    let c = profile.push(' ') + dec(pt as nat);
    let b = dec(port as nat).push(' ') + c;
    lemma_dec_word(port as nat);
    lemma_dec_word(pt as nat);
    law_words_end_at_spaces(kind, b);
    law_words_end_at_spaces(dec(port as nat), c);
    law_words_end_at_spaces(profile, dec(pt as nat));
    law_words_end_at_spaces(dec(pt as nat), c);
    let w = words(kind.push(' ') + b);
    assert(w =~= seq![kind, dec(port as nat), profile, dec(pt as nat)]);
    law_numbers_read_back(port as nat, 65535);
    law_numbers_read_back(pt as nat, 255);
    assert(w.skip(3) =~= Seq::empty().push(dec(pt as nat)));
    law_payload_types_are_numbers(Seq::empty(), dec(pt as nat));
    assert(payload_types(w.skip(3)) =~= seq![pt]);
}

proof fn lemma_dec_word(n: nat)
    ensures
        dec(n).len() > 0,
        forall|i: int| 0 <= i < dec(n).len() ==> !is_white(#[trigger] dec(n)[i]),
{
    law_numbers_are_digits(n);
    assert forall|i: int| 0 <= i < dec(n).len() implies !is_white(#[trigger] dec(n)[i]) by {
        assert(crate::scan::is_digit(dec(n)[i]));
    }
}

/// `c=` and `a=` speak of the open section, and where none is open, of nothing.
pub proof fn law_attributes_belong_to_the_section(st: SdpStateView, v: Seq<char>, m: SdpMediaView)
    ensures
        st.open is None ==> with_field(st, 'c', v) == st && with_field(st, 'a', v) == st,
        st.open == Some(m) ==> with_field(st, 'c', v) == (SdpStateView {
            open: Some(SdpMediaView { connection: v, ..m }),
            ..st
        }),
        st.open == Some(m) ==> with_field(st, 'a', v) == (SdpStateView {
            open: Some(with_attribute(m, v)),
            ..st
        }),
{
}

proof fn lemma_attribute(name: Seq<char>, v: Seq<char>)
    requires
        name == "rtpmap:"@ || name == "ptime:"@ || name == "framecount:"@ || name == "ts-refclk:"@
            || name == "mediaclk:"@,
    ensures
        after(name + v, name) == Some(v),
        "rtpmap:"@[0] == 'r' && "ptime:"@[0] == 'p' && "framecount:"@[0] == 'f',
        "ts-refclk:"@[0] == 't' && "mediaclk:"@[0] == 'm',
        name != "rtpmap:"@ ==> after(name + v, "rtpmap:"@) is None,
        name != "ptime:"@ ==> after(name + v, "ptime:"@) is None,
        name != "framecount:"@ ==> after(name + v, "framecount:"@) is None,
        name != "ts-refclk:"@ ==> after(name + v, "ts-refclk:"@) is None,
        name != "mediaclk:"@ ==> after(name + v, "mediaclk:"@) is None,
{
    reveal_strlit("rtpmap:");
    reveal_strlit("ptime:");
    reveal_strlit("framecount:");
    reveal_strlit("ts-refclk:");
    reveal_strlit("mediaclk:");
    let s = name + v;
    assert(s.subrange(0, name.len() as int) =~= name);
    assert(s.skip(name.len() as int) =~= v);
    assert(s[0] == name[0]);
    lemma_first_letter(s, "rtpmap:"@);
    lemma_first_letter(s, "ptime:"@);
    lemma_first_letter(s, "framecount:"@);
    lemma_first_letter(s, "ts-refclk:"@);
    lemma_first_letter(s, "mediaclk:"@);
}

proof fn lemma_first_letter(s: Seq<char>, p: Seq<char>)
    requires
        p.len() > 0,
        s.len() > 0,
    ensures
        s[0] != p[0] ==> after(s, p) is None,
{
    if begins(s, p) {
        assert(s.subrange(0, p.len() as int)[0] == s[0]);
    }
}

/// `ptime` gives the packet time in milliseconds, which is kept in nanoseconds, and one
/// millisecond where it is no number.
pub proof fn law_packet_time_is_read(m: SdpMediaView, v: Seq<char>)
    ensures
        scaled(trim(v), 6) matches Some(n) ==> with_attribute(m, "ptime:"@ + v) == (SdpMediaView {
            ptime_ns: n as i64,
            ..m
        }),
        scaled(trim(v), 6) is None ==> with_attribute(m, "ptime:"@ + v) == (SdpMediaView {
            ptime_ns: 1_000_000,
            ..m
        }),
{
    lemma_attribute("ptime:"@, v);
}

/// A whole number of milliseconds is a million nanoseconds each.
pub proof fn law_packet_time_in_milliseconds(m: SdpMediaView, n: nat)
    requires
        n < 9_000_000_000_000,
    ensures
        with_attribute(m, "ptime:"@ + dec(n)) == (SdpMediaView {
            ptime_ns: (n * 1_000_000) as i64,
            ..m
        }),
{
    crate::text_laws::law_decimals_are_scaled(n);
    lemma_dec_word(n);
    crate::text_laws::law_trimming_takes_the_ends(dec(n));
    let s = dec(n);
    assert(!is_white(s[0]) && !is_white(s[s.len() - 1]));
    law_packet_time_is_read(m, s);
}

/// `rtpmap` gives the format of a payload type: behind its name the clock rate, and
/// behind that the number of channels. Whichever is no number is 48 kHz, or one.
pub proof fn law_format_is_read(m: SdpMediaView, pt: Seq<char>, name: Seq<char>, rate: nat, channels: u8)
    requires
        forall|i: int| 0 <= i < pt.len() ==> pt[i] != ' ',
        forall|i: int| 0 <= i < name.len() ==> name[i] != '/',
        rate < 9_000_000_000_000,
    ensures
        ({
            let map = name.push('/') + (dec(rate).push('/') + dec(channels as nat));
            with_attribute(m, "rtpmap:"@ + (pt.push(' ') + map)) == (SdpMediaView {
                rtpmap: map,
                clock_uhz: (rate * 1_000_000) as i64,
                channels,
                ..m
            })
        }),
        ({
            let map = name.push('/') + dec(rate);
            with_attribute(m, "rtpmap:"@ + (pt.push(' ') + map)) == (SdpMediaView {
                rtpmap: map,
                clock_uhz: (rate * 1_000_000) as i64,
                ..m
            })
        }),
        with_attribute(m, "rtpmap:"@ + (pt.push(' ') + name)) == (SdpMediaView { rtpmap: name, ..m }),
        with_attribute(m, "rtpmap:"@ + pt) == m,
        ({
            let map = name.push('/') + "x"@;
            with_attribute(m, "rtpmap:"@ + (pt.push(' ') + map)) == (SdpMediaView {
                rtpmap: map,
                clock_uhz: 48_000_000_000,
                ..m
            })
        }),
{
    lemma_dec_plain(rate);
    lemma_dec_plain(channels as nat);
    crate::text_laws::law_decimals_are_scaled(rate);
    law_numbers_read_back(channels as nat, 255);
    let rc = dec(rate).push('/') + dec(channels as nat);
    let full = name.push('/') + rc;
    let bare = name.push('/') + dec(rate);
    let odd = name.push('/') + "x"@;
    lemma_attribute("rtpmap:"@, pt.push(' ') + full);
    lemma_attribute("rtpmap:"@, pt.push(' ') + bare);
    lemma_attribute("rtpmap:"@, pt.push(' ') + name);
    lemma_attribute("rtpmap:"@, pt.push(' ') + odd);
    lemma_attribute("rtpmap:"@, pt);
    law_parts_stand_between(pt, ' ', full);
    law_parts_stand_between(pt, ' ', bare);
    law_parts_stand_between(pt, ' ', name);
    law_parts_stand_between(pt, ' ', odd);
    law_parts_stand_between(name, '/', rc);
    law_parts_stand_between(name, '/', dec(rate));
    law_parts_stand_between(name, '/', "x"@);
    law_parts_stand_between(dec(rate), '/', dec(channels as nat));
    law_parts_stand_between(dec(channels as nat), '/', name);
    assert(parts(full, '/') =~= seq![name, dec(rate), dec(channels as nat)]);
    assert(parts(bare, '/') =~= seq![name, dec(rate)]);
    lemma_no_number();
    assert(parts("x"@, '/') == seq!["x"@]) by {
        reveal_strlit("x");
        law_parts_stand_between("x"@, '/', name);
    }
    assert(parts(odd, '/') =~= seq![name, "x"@]);
}

proof fn lemma_no_number()
    ensures
        scaled("x"@, 6) is None,
{
    reveal_strlit("x");
    reveal_strlit("inf");
    reveal_strlit("infinity");
    reveal_strlit("nan");
    let s = "x"@;
    assert(s.len() == 1 && s[0] == 'x');
    assert(crate::scan::small(s) =~= s);
    law_parts_stand_between(s, 'e', s);
    law_parts_stand_between(s, '.', s);
    assert(!crate::scan::is_digit(s[0]));
    assert("inf"@.len() == 3 && "nan"@.len() == 3 && "infinity"@.len() == 8);
}

proof fn lemma_dec_plain(n: nat)
    ensures
        forall|i: int| 0 <= i < dec(n).len() ==> dec(n)[i] != '/',
{
    law_numbers_are_digits(n);
    assert forall|i: int| 0 <= i < dec(n).len() implies dec(n)[i] != '/' by {
        assert(crate::scan::is_digit(dec(n)[i]));
    }
}

/// `framecount` gives the packet time in frames, once the clock rate is known: it is the
/// least time in nanoseconds that holds them.
pub proof fn law_frame_count_is_read(m: SdpMediaView, n: nat)
    requires
        n <= 0xffff_ffff,
        m.clock_uhz < 0x7FFF_FFFF_FFFF_FFFF,
    ensures
        m.clock_uhz <= 0 ==> with_attribute(m, "framecount:"@ + dec(n)) == m,
        ({
            let w = with_attribute(m, "framecount:"@ + dec(n));
            m.clock_uhz >= 1_000_000 ==> {
                &&& w == (SdpMediaView { ptime_ns: w.ptime_ns, ..m })
                &&& w.ptime_ns * m.clock_uhz >= n * 1_000_000_000_000_000
                &&& w.ptime_ns * m.clock_uhz < n * 1_000_000_000_000_000 + m.clock_uhz
            }
        }),
{
    lemma_attribute("framecount:"@, dec(n));
    lemma_dec_word(n);
    let s = dec(n);
    crate::text_laws::law_trimming_takes_the_ends(s);
    assert(!is_white(s[0]) && !is_white(s[s.len() - 1]));
    law_numbers_read_back(n, 0xffff_ffff);
    if m.clock_uhz >= 1_000_000 {
        let c = m.clock_uhz as int;
        let x = n * 1_000_000_000_000_000 + c - 1;
        let t = x / c;
        vstd::arithmetic::div_mod::lemma_fundamental_div_mod(x, c);
        assert(t * c <= x && x < t * c + c) by (nonlinear_arith)
            requires
                x == c * t + x % c,
                0 <= x % c < c,
        ;
        assert(t < 0x7FFF_FFFF_FFFF_FFFF) by (nonlinear_arith)
            requires
                t * c <= x,
                x < 0x1_0000_0000 * 1_000_000_000_000_000 + c,
                c >= 1_000_000,
                c < 0x7FFF_FFFF_FFFF_FFFF,
        ;
        assert(t >= 0) by (nonlinear_arith)
            requires
                x < t * c + c,
                x >= 0,
                c > 0,
        ;
    }
}

/// The reference clock and the media clock are kept as they are written, and an attribute
/// of another name says nothing.
pub proof fn law_clocks_are_kept(m: SdpMediaView, v: Seq<char>)
    ensures
        with_attribute(m, "ts-refclk:"@ + v) == (SdpMediaView { ts_refclk: v, ..m }),
        with_attribute(m, "mediaclk:"@ + v) == (SdpMediaView { mediaclk: v, ..m }),
        v.len() > 0 && v[0] != 'r' && v[0] != 'p' && v[0] != 'f' && v[0] != 't' && v[0] != 'm'
            ==> with_attribute(m, v) == m,
{
    lemma_attribute("ts-refclk:"@, v);
    lemma_attribute("mediaclk:"@, v);
    reveal_strlit("rtpmap:");
    reveal_strlit("ptime:");
    reveal_strlit("framecount:");
    reveal_strlit("ts-refclk:");
    reveal_strlit("mediaclk:");
    if v.len() > 0 {
        lemma_first_letter(v, "rtpmap:"@);
        lemma_first_letter(v, "ptime:"@);
        lemma_first_letter(v, "framecount:"@);
        lemma_first_letter(v, "ts-refclk:"@);
        lemma_first_letter(v, "mediaclk:"@);
    }
}

/// The third word of a connection is an address, up to a slash.
pub proof fn law_connections_hold_an_address(net: Seq<char>, kind: Seq<char>, ip: Ipv4Addr, ttl: nat)
    requires
        net.len() > 0,
        kind.len() > 0,
        forall|i: int| 0 <= i < net.len() ==> !is_white(#[trigger] net[i]),
        forall|i: int| 0 <= i < kind.len() ==> !is_white(#[trigger] kind[i]),
    ensures
        connection_address(net.push(' ') + (kind.push(' ') + dotted(ip))) == Some(ip),
        connection_address(net.push(' ') + (kind.push(' ') + (dotted(ip).push('/') + dec(ttl))))
            == Some(ip),
        connection_address(net.push(' ') + kind) is None,
{
    let a = dotted(ip);
    let b = a.push('/') + dec(ttl);
    lemma_dotted(ip);
    lemma_dec_word(ttl);
    law_addresses_read_back(ip);
    law_parts_stand_between(a, '/', dec(ttl));
    law_words_end_at_spaces(net, kind.push(' ') + a);
    law_words_end_at_spaces(kind, a);
    law_words_end_at_spaces(a, a);
    law_words_end_at_spaces(net, kind.push(' ') + b);
    law_words_end_at_spaces(kind, b);
    assert forall|i: int| 0 <= i < b.len() implies !is_white(#[trigger] b[i]) by {
        if i < a.len() {
            assert(b[i] == a[i]);
        } else if i > a.len() {
            assert(b[i] == dec(ttl)[i - a.len() - 1]);
        }
    }
    law_words_end_at_spaces(b, b);
    law_words_end_at_spaces(net, kind);
    let x = words(net.push(' ') + (kind.push(' ') + a));
    assert(x =~= seq![net, kind, a]);
    let y = words(net.push(' ') + (kind.push(' ') + b));
    assert(y =~= seq![net, kind, b]);
    assert(words(net.push(' ') + kind) =~= seq![net, kind]);
}

proof fn lemma_dotted(ip: Ipv4Addr)
    ensures
        dotted(ip).len() > 0,
        forall|i: int|
            0 <= i < dotted(ip).len() ==> !is_white(#[trigger] dotted(ip)[i]) && dotted(ip)[i] != '/',
{
    let s = dotted(ip);
    let a = dec(ip.a as nat).push('.');
    let b = dec(ip.b as nat).push('.');
    let c = dec(ip.c as nat).push('.');
    let d = dec(ip.d as nat);
    law_numbers_are_digits(ip.a as nat);
    law_numbers_are_digits(ip.b as nat);
    law_numbers_are_digits(ip.c as nat);
    law_numbers_are_digits(ip.d as nat);
    assert(s == a + b + c + d);
    assert forall|i: int| 0 <= i < s.len() implies !is_white(#[trigger] s[i]) && s[i] != '/' by {
        if i < a.len() {
            assert(s[i] == a[i]);
            if i < a.len() - 1 {
                assert(crate::scan::is_digit(dec(ip.a as nat)[i]));
            }
        } else if i < a.len() + b.len() {
            assert(s[i] == b[i - a.len()]);
            if i - a.len() < b.len() - 1 {
                assert(crate::scan::is_digit(dec(ip.b as nat)[i - a.len()]));
            }
        } else if i < a.len() + b.len() + c.len() {
            assert(s[i] == c[i - a.len() - b.len()]);
            if i - a.len() - b.len() < c.len() - 1 {
                assert(crate::scan::is_digit(dec(ip.c as nat)[i - a.len() - b.len()]));
            }
        } else {
            assert(s[i] == d[i - a.len() - b.len() - c.len()]);
            assert(crate::scan::is_digit(d[i - a.len() - b.len() - c.len()]));
        }
    }
}

// ── Reference clocks ─────────────────────────────────────────────────────────

proof fn lemma_last_colon(s: Seq<char>, t: Seq<char>)
    requires
        forall|i: int| 0 <= i < t.len() ==> t[i] != ':',
    ensures
        last_colon(s.push(':') + t) == Some(s.len() as int),
    decreases t.len(),
{
    let x = s.push(':') + t;
    if t.len() > 0 {
        assert(x.last() == t[t.len() - 1]);
        assert(x.drop_last() =~= s.push(':') + t.drop_last());
        lemma_last_colon(s, t.drop_last());
    } else {
        assert(x.last() == ':');
    }
}

/// A reference clock is a grandmaster and a domain, of either edition of the standard. The
/// grandmaster is told with colons for its hyphens.
pub proof fn law_reference_clocks(gm: Seq<char>, domain: u8)
    ensures
        ({
            let told = with_colons(gm);
            &&& reference_clock("ptp=IEEE1588-2008:"@ + (gm.push(':') + dec(domain as nat))) == Some(
                (told, domain),
            )
            &&& reference_clock("ptp=IEEE1588-2002:"@ + (gm.push(':') + dec(domain as nat))) == Some(
                (told, domain),
            )
            &&& told.len() == gm.len()
            &&& forall|i: int|
                0 <= i < gm.len() ==> #[trigger] told[i] == (if gm[i] == '-' {
                    ':'
                } else {
                    gm[i]
                })
        }),
        !begins(gm, "ptp=IEEE1588-2008:"@) && !begins(gm, "ptp=IEEE1588-2002:"@) ==> reference_clock(
            gm,
        ) is None,
{
    let d = dec(domain as nat);
    let r = gm.push(':') + d;
    let a = "ptp=IEEE1588-2008:"@;
    let b = "ptp=IEEE1588-2002:"@;
    reveal_strlit("ptp=IEEE1588-2008:");
    reveal_strlit("ptp=IEEE1588-2002:");
    assert((a + r).subrange(0, a.len() as int) =~= a);
    assert((a + r).skip(a.len() as int) =~= r);
    assert((b + r).subrange(0, b.len() as int) =~= b);
    assert((b + r).skip(b.len() as int) =~= r);
    assert((b + r)[16] == '2');
    if begins(b + r, a) {
        assert((b + r).subrange(0, a.len() as int)[16] == '8');
    }
    law_numbers_are_digits(domain as nat);
    assert forall|i: int| 0 <= i < d.len() implies d[i] != ':' by {
        assert(crate::scan::is_digit(d[i]));
    }
    lemma_last_colon(gm, d);
    assert(r.skip(gm.len() as int + 1) =~= d);
    assert(r.subrange(0, gm.len() as int) =~= gm);
    lemma_dec_word(domain as nat);
    assert(!is_white(d[0]) && !is_white(d[d.len() - 1]));
    crate::text_laws::law_trimming_takes_the_ends(d);
    law_numbers_read_back(domain as nat, 255);
}

/// Channels that are no number count as one, and frames that are none, or of an unknown
/// rate, give no packet time.
pub proof fn law_formats_that_cannot_be_read(m: SdpMediaView, pt: Seq<char>, name: Seq<char>, rate: nat)
    requires
        forall|i: int| 0 <= i < pt.len() ==> pt[i] != ' ',
        forall|i: int| 0 <= i < name.len() ==> name[i] != '/',
        rate < 9_000_000_000_000,
    ensures
        ({
            let map = name.push('/') + (dec(rate).push('/') + "x"@);
            with_attribute(m, "rtpmap:"@ + (pt.push(' ') + map)) == (SdpMediaView {
                rtpmap: map,
                clock_uhz: (rate * 1_000_000) as i64,
                channels: 1,
                ..m
            })
        }),
        with_attribute(m, "framecount:"@ + "x"@) == m,
        whole(trim(name), 0xffff_ffff) is None ==> with_attribute(m, "framecount:"@ + name) == m,
{
    lemma_dec_plain(rate);
    crate::text_laws::law_decimals_are_scaled(rate);
    let rx = dec(rate).push('/') + "x"@;
    let map = name.push('/') + rx;
    lemma_attribute("rtpmap:"@, pt.push(' ') + map);
    lemma_attribute("framecount:"@, "x"@);
    lemma_attribute("framecount:"@, name);
    law_parts_stand_between(pt, ' ', map);
    law_parts_stand_between(name, '/', rx);
    law_parts_stand_between(dec(rate), '/', "x"@);
    reveal_strlit("x");
    law_parts_stand_between("x"@, '/', name);
    assert(parts(map, '/') =~= seq![name, dec(rate), "x"@]);
    assert("x"@[0] == 'x' && "x"@.len() == 1);
    assert(!crate::scan::is_digit("x"@[0]));
    assert(!crate::scan::digits("x"@));
    crate::text_laws::law_trimming_takes_the_ends("x"@);
}

} // verus!
