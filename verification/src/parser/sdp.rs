//! SAP announcements and the session descriptions in them.

use vstd::prelude::*;
use vstd::slice::slice_subrange;
use vstd::utf8::*;

use crate::net::{address, Ipv4Addr};
use crate::order::views;
use crate::parser::bytes::same_bytes;
use crate::protocols::{hertz, microhertz, SdpMedia, SdpMediaView, SdpSession, SdpSessionView, DEFAULT_CLOCK_HZ};
use crate::scan::{after, counted, chars_of, cut, decoded, head, lower, parts, read_scaled, read_whole, scaled, spellings, split, split_words, string_of, strip, tail, trim, trimmed, whole, words, ENDLESS};

verus! {

// ── Lines ────────────────────────────────────────────────────────────────────

/// A description as far as it is read: the session and the media section that is
/// still open.
pub struct SdpStateView {
    pub session_id: Seq<char>,
    pub session_name: Seq<char>,
    pub info: Seq<char>,
    pub media: Seq<SdpMediaView>,
    pub open: Option<SdpMediaView>,
}

/// The value of a number, or what stands for it where there is none.
pub open spec fn or_else<A>(n: Option<A>, default: A) -> A {
    match n {
        Some(v) => v,
        None => default,
    }
}

/// The payload types among words; other words are left out.
pub open spec fn payload_types(w: Seq<Seq<char>>) -> Seq<u8>
    decreases w.len(),
{
    if w.len() == 0 {
        Seq::empty()
    } else {
        match whole(w.last(), 255) {
            Some(n) => payload_types(w.drop_last()).push(n as u8),
            None => payload_types(w.drop_last()),
        }
    }
}

/// The media section that an `m=` line opens: type, port, transport, formats.
pub open spec fn media_section(value: Seq<char>) -> Option<SdpMediaView> {
    let w = words(value);
    if w.len() >= 4 {
        Some(
            SdpMediaView {
                media_type: w[0],
                port: or_else(whole(w[1], 65535), 0) as u16,
                payload_types: payload_types(w.skip(3)),
                connection: Seq::empty(),
                rtpmap: Seq::empty(),
                clock_uhz: 0,
                channels: 0,
                ptime_ns: 0,
                ts_refclk: Seq::empty(),
                mediaclk: Seq::empty(),
            },
        )
    } else {
        None
    }
}

/// The section with an `rtpmap:` attribute: a payload type, then the encoding,
/// its clock rate and its channels.
pub open spec fn with_rtpmap(m: SdpMediaView, rest: Seq<char>) -> SdpMediaView {
    match tail(rest, ' ') {
        Some(map) => {
            let enc = parts(map, '/');
            SdpMediaView {
                rtpmap: map,
                clock_uhz: if enc.len() >= 2 {
                    or_else(scaled(enc[1], 6), microhertz(DEFAULT_CLOCK_HZ) as int) as i64
                } else {
                    m.clock_uhz
                },
                channels: if enc.len() >= 3 {
                    or_else(whole(enc[2], 255), 1) as u8
                } else {
                    m.channels
                },
                ..m
            }
        },
        None => m,
    }
}

/// The time that `frames` samples last, in nanoseconds, rounded up. At an endless
/// rate they take no time.
pub open spec fn frames_time(frames: nat, clock_uhz: nat) -> nat {
    if clock_uhz == ENDLESS {
        0
    } else {
        (frames * 1_000_000_000_000_000 + clock_uhz - 1) as nat / clock_uhz
    }
}

/// The section with a `framecount:` attribute, once the clock rate is known.
pub open spec fn with_framecount(m: SdpMediaView, rest: Seq<char>) -> SdpMediaView {
    match whole(trim(rest), 0xffff_ffff) {
        Some(n) => if m.clock_uhz > 0 {
            SdpMediaView {
                ptime_ns: counted(frames_time(n, m.clock_uhz as nat)),
                ..m
            }
        } else {
            m
        },
        None => m,
    }
}

/// The section with an attribute.
pub open spec fn with_attribute(m: SdpMediaView, value: Seq<char>) -> SdpMediaView {
    if after(value, "rtpmap:"@) is Some {
        with_rtpmap(m, after(value, "rtpmap:"@).unwrap())
    } else if after(value, "ptime:"@) is Some {
        SdpMediaView {
            ptime_ns: or_else(
                scaled(trim(after(value, "ptime:"@).unwrap()), 6),
                1_000_000,
            ) as i64,
            ..m
        }
    } else if after(value, "framecount:"@) is Some {
        with_framecount(m, after(value, "framecount:"@).unwrap())
    } else if after(value, "ts-refclk:"@) is Some {
        SdpMediaView { ts_refclk: after(value, "ts-refclk:"@).unwrap(), ..m }
    } else if after(value, "mediaclk:"@) is Some {
        SdpMediaView { mediaclk: after(value, "mediaclk:"@).unwrap(), ..m }
    } else {
        m
    }
}

/// The second field of an `o=` line.
pub open spec fn session_field(value: Seq<char>) -> Option<Seq<char>> {
    match tail(value, ' ') {
        Some(t) => Some(head(t, ' ')),
        None => None,
    }
}

/// The open section put to the others.
pub open spec fn closed(st: SdpStateView) -> Seq<SdpMediaView> {
    match st.open {
        Some(m) => st.media.push(m),
        None => st.media,
    }
}

/// The description after a line of the given type and value.
pub open spec fn with_field(st: SdpStateView, kind: char, value: Seq<char>) -> SdpStateView {
    if kind == 'o' {
        match session_field(value) {
            Some(id) => SdpStateView { session_id: id, ..st },
            None => st,
        }
    } else if kind == 's' {
        SdpStateView { session_name: value, ..st }
    } else if kind == 'i' {
        match st.open {
            Some(_) => st,
            None => SdpStateView { info: value, ..st },
        }
    } else if kind == 'm' {
        SdpStateView { media: closed(st), open: media_section(value), ..st }
    } else if kind == 'c' {
        match st.open {
            Some(m) => SdpStateView { open: Some(SdpMediaView { connection: value, ..m }), ..st },
            None => st,
        }
    } else if kind == 'a' {
        match st.open {
            Some(m) => SdpStateView { open: Some(with_attribute(m, value)), ..st },
            None => st,
        }
    } else {
        st
    }
}

/// The description after a line. A line is a letter, `=` and a value; anything
/// else is passed over.
pub open spec fn with_line(st: SdpStateView, line: Seq<char>) -> SdpStateView {
    let t = trim(line);
    if t.len() >= 2 && t[1] == '=' {
        with_field(st, t[0], t.skip(2))
    } else {
        st
    }
}

/// The description after the first `n` lines.
pub open spec fn with_lines(lines: Seq<Seq<char>>, n: nat) -> SdpStateView
    decreases n,
{
    if n == 0 {
        SdpStateView {
            session_id: Seq::empty(),
            session_name: Seq::empty(),
            info: Seq::empty(),
            media: Seq::empty(),
            open: None,
        }
    } else {
        with_line(with_lines(lines, (n - 1) as nat), lines[n - 1])
    }
}

/// The session that a text describes.
pub open spec fn sdp(text: Seq<char>) -> SdpSessionView {
    let lines = parts(text, '\n');
    let st = with_lines(lines, lines.len());
    SdpSessionView {
        session_id: st.session_id,
        session_name: st.session_name,
        info: st.info,
        media: closed(st),
    }
}

struct SdpState {
    session: SdpSession,
    open: Option<SdpMedia>,
}

impl View for SdpState {
    type V = SdpStateView;

    closed spec fn view(&self) -> SdpStateView {
        SdpStateView {
            session_id: self.session.session_id@,
            session_name: self.session.session_name@,
            info: self.session.info@,
            media: views(self.session.media@),
            open: match self.open {
                Some(m) => Some(m@),
                None => None,
            },
        }
    }
}

fn read_payload_types(w: &Vec<Vec<char>>) -> (r: Vec<u8>)
    requires
        w@.len() >= 3,
    ensures
        r@ == payload_types(spellings(w@).skip(3)),
{
    let mut out: Vec<u8> = Vec::new();
    let mut i: usize = 3;
    let ghost all = spellings(w@).skip(3);
    proof {
        assert(all.subrange(0, 0) =~= Seq::empty());
    }
    while i < w.len()
        invariant
            3 <= i <= w@.len(),
            all == spellings(w@).skip(3),
            out@ == payload_types(all.subrange(0, i - 3)),
        decreases w@.len() - i,
    {
        proof {
            let next = all.subrange(0, i - 2);
            assert(next.drop_last() =~= all.subrange(0, i - 3));
            assert(next.last() == w@[i as int]@);
        }
        match read_whole(w[i].as_slice(), 255) {
            Some(n) => {
                out.push(n as u8);
            },
            None => {},
        }
        i += 1;
    }
    proof {
        assert(all.subrange(0, i - 3) =~= all);
    }
    out
}

fn open_section(value: &[char]) -> (r: Option<SdpMedia>)
    ensures
        match r {
            Some(m) => media_section(value@) == Some(m@),
            None => media_section(value@) is None,
        },
{
    let w: Vec<Vec<char>> = split_words(value);
    assert(w@.len() == spellings(w@).len());
    if w.len() < 4 {
        return None;
    }
    assert(spellings(w@)[0] == w@[0]@ && spellings(w@)[1] == w@[1]@);
    let port: u16 = match read_whole(w[1].as_slice(), 65535) {
        Some(n) => n as u16,
        None => 0,
    };
    Some(
        SdpMedia {
            media_type: string_of(w[0].as_slice()),
            port,
            payload_types: read_payload_types(&w),
            connection: String::new(),
            rtpmap: String::new(),
            clock_uhz: 0,
            channels: 0,
            ptime_ns: 0,
            ts_refclk: String::new(),
            mediaclk: String::new(),
        },
    )
}

fn apply_rtpmap(m: &mut SdpMedia, rest: &[char])
    ensures
        final(m)@ == with_rtpmap(old(m)@, rest@),
{
    match cut(rest, ' ').1 {
        Some(map) => {
            m.rtpmap = string_of(map);
            let enc: Vec<Vec<char>> = split(map, '/');
            assert(enc@.len() == spellings(enc@).len());
            if enc.len() >= 2 {
                assert(spellings(enc@)[1] == enc@[1]@);
                m.clock_uhz = match read_scaled(enc[1].as_slice(), 6) {
                    Some(n) => n,
                    None => hertz(DEFAULT_CLOCK_HZ),
                };
            }
            if enc.len() >= 3 {
                assert(spellings(enc@)[2] == enc@[2]@);
                m.channels = match read_whole(enc[2].as_slice(), 255) {
                    Some(n) => n as u8,
                    None => 1,
                };
            }
        },
        None => {},
    }
}

fn time_of_frames(frames: u64, clock_uhz: i64) -> (t: i64)
    requires
        frames <= 0xffff_ffff,
        clock_uhz > 0,
    ensures
        t == counted(frames_time(frames as nat, clock_uhz as nat)),
{
    if clock_uhz == ENDLESS {
        return 0;
    }
    let t: u128 = (frames as u128 * 1_000_000_000_000_000 + (clock_uhz as u128 - 1)) / (
    clock_uhz as u128);
    if t > ENDLESS as u128 {
        ENDLESS
    } else {
        t as i64
    }
}

fn apply_attribute(m: &mut SdpMedia, value: &[char])
    ensures
        final(m)@ == with_attribute(old(m)@, value@),
{
    if let Some(rest) = strip(value, "rtpmap:") {
        apply_rtpmap(m, rest);
    } else if let Some(rest) = strip(value, "ptime:") {
        m.ptime_ns = match read_scaled(trimmed(rest), 6) {
            Some(n) => n,
            None => 1_000_000,
        };
    } else if let Some(rest) = strip(value, "framecount:") {
        if let Some(n) = read_whole(trimmed(rest), 0xffff_ffff) {
            if m.clock_uhz > 0 {
                m.ptime_ns = time_of_frames(n, m.clock_uhz);
            }
        }
    } else if let Some(rest) = strip(value, "ts-refclk:") {
        m.ts_refclk = string_of(rest);
    } else if let Some(rest) = strip(value, "mediaclk:") {
        m.mediaclk = string_of(rest);
    }
}

impl SdpState {
    fn apply_field(self, kind: char, value: &[char]) -> (r: SdpState)
        ensures
            r@ == with_field(self@, kind, value@),
    {
        let mut session: SdpSession = self.session;
        let mut open: Option<SdpMedia> = self.open;
        let ghost before = views(session.media@);
        if kind == 'o' {
            if let Some(t) = cut(value, ' ').1 {
                session.session_id = string_of(cut(t, ' ').0);
            }
        } else if kind == 's' {
            session.session_name = string_of(value);
        } else if kind == 'i' {
            if open.is_none() {
                session.info = string_of(value);
            }
        } else if kind == 'm' {
            if let Some(m) = open {
                session.media.push(m);
                assert(views(session.media@) =~= before.push(m@));
            }
            open = open_section(value);
        } else if kind == 'c' {
            if let Some(m) = open {
                let mut m: SdpMedia = m;
                m.connection = string_of(value);
                open = Some(m);
            }
        } else if kind == 'a' {
            if let Some(m) = open {
                let mut m: SdpMedia = m;
                apply_attribute(&mut m, value);
                open = Some(m);
            }
        }
        SdpState { session, open }
    }
}

/// Reads a session description.
pub fn parse_sdp(text: &str) -> (r: SdpSession)
    ensures
        r@ == sdp(text@),
{
    let c: Vec<char> = chars_of(text);
    let lines: Vec<Vec<char>> = split(c.as_slice(), '\n');
    let mut st: SdpState = SdpState {
        session: SdpSession {
            session_id: String::new(),
            session_name: String::new(),
            info: String::new(),
            media: Vec::new(),
        },
        open: None,
    };
    assert(views(st.session.media@) =~= Seq::empty());
    let mut i: usize = 0;
    while i < lines.len()
        invariant
            i <= lines@.len(),
            st@ == with_lines(spellings(lines@), i as nat),
        decreases lines@.len() - i,
    {
        assert(spellings(lines@)[i as int] == lines@[i as int]@);
        let t: &[char] = trimmed(lines[i].as_slice());
        if t.len() >= 2 && t[1] == '=' {
            let value: &[char] = slice_subrange(t, 2, t.len());
            assert(value@ =~= t@.skip(2));
            st = st.apply_field(t[0], value);
        }
        i += 1;
    }
    let ghost before = views(st.session.media@);
    let mut session: SdpSession = st.session;
    if let Some(m) = st.open {
        session.media.push(m);
        assert(views(session.media@) =~= before.push(m@));
    }
    session
}

// ── Envelope ─────────────────────────────────────────────────────────────────

/// How long the header of an announcement is: four bytes, an IPv4 or IPv6
/// address by bit 4, and authentication data in units of four bytes.
pub open spec fn sap_header(p: Seq<u8>) -> int {
    4 + (if p[0] / 16 % 2 == 0 {
        4int
    } else {
        16int
    }) + p[1] * 4
}

/// An announcement of a session: version 1, not a deletion, with a body.
pub open spec fn announces(p: Seq<u8>) -> bool {
    p.len() >= 8 && p[0] / 32 == 1 && p[0] / 4 % 2 == 0 && p.len() > sap_header(p)
}

/// The media type that may stand before a description.
pub open spec fn sdp_mime() -> Seq<u8> {
    seq![0x61u8, 0x70, 0x70, 0x6c, 0x69, 0x63, 0x61, 0x74, 0x69, 0x6f, 0x6e, 0x2f, 0x73, 0x64, 0x70]
}

/// The first place of a zero byte.
pub open spec fn zero_place(b: Seq<u8>, from: int) -> Option<int>
    decreases b.len() - from,
{
    if from < 0 || from >= b.len() {
        None
    } else if b[from] == 0 {
        Some(from)
    } else {
        zero_place(b, from + 1)
    }
}

/// The description in a body, behind the media type and its zero byte where they
/// stand before it.
pub open spec fn description(b: Seq<u8>) -> Seq<u8> {
    if b.len() >= 15 && b.subrange(0, 15) == sdp_mime() {
        match zero_place(b, 0) {
            Some(i) => b.skip(i + 1),
            None => b,
        }
    } else {
        b
    }
}

/// The session that a SAP packet announces.
pub open spec fn sap(p: Seq<u8>) -> Option<SdpSessionView> {
    if announces(p) && valid_utf8(description(p.skip(sap_header(p)))) {
        Some(sdp(decode_utf8(description(p.skip(sap_header(p))))))
    } else {
        None
    }
}

proof fn lemma_zero_place(b: Seq<u8>, from: int, i: int)
    requires
        0 <= from <= i <= b.len(),
        forall|j: int| from <= j < i ==> b[j] != 0,
    ensures
        zero_place(b, from) == zero_place(b, i),
    decreases i - from,
{
    if from < i {
        lemma_zero_place(b, from + 1, i);
    }
}

fn find_zero(b: &[u8]) -> (r: Option<usize>)
    ensures
        match r {
            Some(i) => zero_place(b@, 0) == Some(i as int) && i < b@.len(),
            None => zero_place(b@, 0) is None,
        },
{
    let mut i: usize = 0;
    while i < b.len()
        invariant
            i <= b@.len(),
            forall|j: int| 0 <= j < i ==> b@[j] != 0,
        decreases b@.len() - i,
    {
        if b[i] == 0 {
            proof {
                lemma_zero_place(b@, 0, i as int);
            }
            return Some(i);
        }
        i += 1;
    }
    proof {
        lemma_zero_place(b@, 0, i as int);
    }
    None
}

fn description_of<'a>(b: &'a [u8]) -> (r: &'a [u8])
    ensures
        r@ == description(b@),
{
    let n: usize = b.len();
    if n < 15 {
        return b;
    }
    let mime: Vec<u8> = vec![
        0x61, 0x70, 0x70, 0x6c, 0x69, 0x63, 0x61, 0x74, 0x69, 0x6f, 0x6e, 0x2f, 0x73, 0x64, 0x70,
    ];
    assert(mime@ =~= sdp_mime());
    if !same_bytes(slice_subrange(b, 0, 15), mime.as_slice()) {
        return b;
    }
    match find_zero(b) {
        Some(i) => {
            let r: &[u8] = slice_subrange(b, i + 1, n);
            assert(r@ =~= b@.skip(i + 1));
            r
        },
        None => b,
    }
}

/// Reads a SAP packet.
pub fn parse_sap_packet(payload: &[u8]) -> (r: Option<SdpSession>)
    ensures
        match r {
            Some(s) => sap(payload@) == Some(s@),
            None => sap(payload@) is None,
        },
{
    let p: &[u8] = payload;
    if p.len() < 8 || p[0] / 32 != 1 || p[0] / 4 % 2 != 0 {
        return None;
    }
    let addr: usize = if p[0] / 16 % 2 == 0 {
        4
    } else {
        16
    };
    let header: usize = 4 + addr + p[1] as usize * 4;
    if p.len() <= header {
        return None;
    }
    let body: &[u8] = slice_subrange(p, header, p.len());
    assert(body@ =~= p@.skip(sap_header(p@)));
    match decoded(description_of(body)) {
        Some(c) => Some(parse_sdp(string_of(c.as_slice()).as_str())),
        None => None,
    }
}

// ── Addresses and clocks of a section ────────────────────────────────────────

/// The address that a `c=` line gives: its third word up to a slash.
pub open spec fn connection_address(connection: Seq<char>) -> Option<Ipv4Addr> {
    let w = words(connection);
    if w.len() >= 3 {
        address(head(w[2], '/'))
    } else {
        None
    }
}

impl SdpMedia {
    /// The address of the stream, where the section gives one.
    pub fn connection_ip(&self) -> (r: Option<Ipv4Addr>)
        ensures
            r == connection_address(self@.connection),
    {
        let c: Vec<char> = chars_of(self.connection.as_str());
        let w: Vec<Vec<char>> = split_words(c.as_slice());
        assert(w@.len() == spellings(w@).len());
        if w.len() < 3 {
            return None;
        }
        assert(spellings(w@)[2] == w@[2]@);
        Ipv4Addr::parse(cut(w[2].as_slice(), '/').0)
    }
}

/// The small letters of a text.
pub uninterp spec fn lowercase(s: Seq<char>) -> Seq<char>;

/// The small letters of a text. Calls `str::to_lowercase`, whose result depends
/// on the text alone. Of ASCII text it changes exactly the capitals.
#[verifier::external_body]
fn lowercased(s: &str) -> (r: String)
    ensures
        r@ == lowercase(s@),
        is_ascii_chars(s@) ==> r@ == s@.map_values(|c: char| lower(c)),
{
    s.to_lowercase()
}

/// The last place of a colon.
pub open spec fn last_colon(s: Seq<char>) -> Option<int>
    decreases s.len(),
{
    if s.len() == 0 {
        None
    } else if s.last() == ':' {
        Some(s.len() - 1)
    } else {
        last_colon(s.drop_last())
    }
}

/// Dashes as colons.
pub open spec fn with_colons(s: Seq<char>) -> Seq<char> {
    s.map_values(
        |c: char|
            if c == '-' {
                ':'
            } else {
                c
            },
    )
}

/// The clock and the domain of a PTP reference: an identity, a colon and a
/// domain number behind the name of the standard. The identity is still as the
/// session spells it, with colons for dashes.
pub open spec fn reference_clock(s: Seq<char>) -> Option<(Seq<char>, u8)> {
    let rest = if after(s, "ptp=IEEE1588-2008:"@) is Some {
        after(s, "ptp=IEEE1588-2008:"@)
    } else {
        after(s, "ptp=IEEE1588-2002:"@)
    };
    match rest {
        Some(r) => match last_colon(r) {
            Some(i) => match whole(trim(r.skip(i + 1)), 255) {
                Some(domain) => Some((with_colons(r.subrange(0, i)), domain as u8)),
                None => None,
            },
            None => None,
        },
        None => None,
    }
}

fn find_last_colon(s: &[char]) -> (r: Option<usize>)
    ensures
        match r {
            Some(i) => last_colon(s@) == Some(i as int) && i < s@.len(),
            None => last_colon(s@) is None,
        },
{
    let mut n: usize = s.len();
    assert(s@.subrange(0, n as int) =~= s@);
    while n > 0
        invariant
            n <= s@.len(),
            last_colon(s@.subrange(0, n as int)) == last_colon(s@),
        decreases n,
    {
        let ghost front = s@.subrange(0, n as int);
        assert(front.last() == s@[n - 1]);
        assert(front.drop_last() =~= s@.subrange(0, n - 1));
        if s[n - 1] == ':' {
            return Some(n - 1);
        }
        n -= 1;
    }
    None
}

fn colons(s: &[char]) -> (r: Vec<char>)
    ensures
        r@ == with_colons(s@),
{
    let mut v: Vec<char> = Vec::new();
    let mut i: usize = 0;
    while i < s.len()
        invariant
            i <= s@.len(),
            v@ == with_colons(s@).subrange(0, i as int),
        decreases s@.len() - i,
    {
        v.push(
            if s[i] == '-' {
                ':'
            } else {
                s[i]
            },
        );
        i += 1;
        assert(v@ =~= with_colons(s@).subrange(0, i as int));
    }
    assert(v@ =~= with_colons(s@));
    v
}

/// Reads the clock and the domain of a PTP reference, the identity as spelt.
pub fn read_reference_clock(s: &str) -> (r: Option<(String, u8)>)
    ensures
        match r {
            Some((id, domain)) => reference_clock(s@) == Some((id@, domain)),
            None => reference_clock(s@) is None,
        },
{
    let c: Vec<char> = chars_of(s);
    let rest: &[char] = match strip(c.as_slice(), "ptp=IEEE1588-2008:") {
        Some(r) => r,
        None => match strip(c.as_slice(), "ptp=IEEE1588-2002:") {
            Some(r) => r,
            None => {
                return None;
            },
        },
    };
    let n: usize = rest.len();
    let i: usize = match find_last_colon(rest) {
        Some(i) => i,
        None => {
            return None;
        },
    };
    let behind: &[char] = slice_subrange(rest, i + 1, n);
    assert(behind@ =~= rest@.skip(i + 1));
    match read_whole(trimmed(behind), 255) {
        Some(domain) => {
            let id: Vec<char> = colons(slice_subrange(rest, 0, i));
            Some((string_of(id.as_slice()), domain as u8))
        },
        None => None,
    }
}

/// Reads a `ts-refclk` attribute: the grandmaster's identity in small letters
/// with colons, and its domain. Other references than PTP give none.
pub fn parse_ts_refclk(s: &str) -> (r: Option<(String, u8)>)
    ensures
        match reference_clock(s@) {
            Some((id, domain)) => r matches Some((gm, d)) && d == domain && gm@ == lowercase(id) && (
            is_ascii_chars(id) ==> gm@ == id.map_values(|c: char| lower(c))),
            None => r is None,
        },
{
    match read_reference_clock(s) {
        Some((id, domain)) => Some((lowercased(id.as_str()), domain)),
        None => None,
    }
}

/// A framecount and the packet time computed from it agree: over that time the
/// clock advances by exactly that many frames.
pub proof fn law_framecount_round_trip(frames: nat, clock_uhz: nat)
    requires
        0 < clock_uhz < 1_000_000_000_000_000,
    ensures
        clock_uhz * frames_time(frames, clock_uhz) / 1_000_000_000_000_000 == frames,
{
    let t = frames_time(frames, clock_uhz);
    let n = (frames * 1_000_000_000_000_000 + clock_uhz - 1) as nat;
    assert(t == n / clock_uhz);
    assert(clock_uhz * t + n % clock_uhz == n) by {
        vstd::arithmetic::div_mod::lemma_fundamental_div_mod(n as int, clock_uhz as int);
    }
    assert(n % clock_uhz < clock_uhz) by (nonlinear_arith)
        requires
            clock_uhz > 0,
    ;
    assert(frames * 1_000_000_000_000_000 <= clock_uhz * t < frames * 1_000_000_000_000_000
        + 1_000_000_000_000_000);
}

} // verus!
