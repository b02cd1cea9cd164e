//! IPv4 addresses.

use vstd::prelude::*;

use crate::scan::{read_whole, spellings, split};
use crate::text::{dec, push_char, push_dec};

verus! {

/// An IPv4 address by its four octets.
#[derive(Clone, Copy, Debug, PartialEq, Eq, Structural)]
pub struct Ipv4Addr {
    pub a: u8,
    pub b: u8,
    pub c: u8,
    pub d: u8,
}

impl View for Ipv4Addr {
    type V = Ipv4Addr;

    open spec fn view(&self) -> Ipv4Addr {
        *self
    }
}

/// The address in dotted decimal.
pub open spec fn dotted(ip: Ipv4Addr) -> Seq<char> {
    dec(ip.a as nat).push('.') + dec(ip.b as nat).push('.') + dec(ip.c as nat).push('.') + dec(
        ip.d as nat,
    )
}

/// The address as one number.
pub open spec fn bits(ip: Ipv4Addr) -> nat {
    (ip.a * 0x100_0000 + ip.b * 0x1_0000 + ip.c * 0x100 + ip.d) as nat
}

/// One octet in decimal: at most three digits, no leading zero, up to 255.
pub open spec fn octet(s: Seq<char>) -> Option<nat> {
    if s.len() <= 3 && !(s.len() > 0 && s[0] == '+') && !(s.len() > 1 && s[0] == '0') {
        crate::scan::whole(s, 255)
    } else {
        None
    }
}

/// The address that text spells in dotted decimal.
pub open spec fn address(s: Seq<char>) -> Option<Ipv4Addr> {
    let p = crate::scan::parts(s, '.');
    if p.len() == 4 && octet(p[0]) is Some && octet(p[1]) is Some && octet(p[2]) is Some && octet(
        p[3],
    ) is Some {
        Some(
            Ipv4Addr {
                a: octet(p[0]).unwrap() as u8,
                b: octet(p[1]).unwrap() as u8,
                c: octet(p[2]).unwrap() as u8,
                d: octet(p[3]).unwrap() as u8,
            },
        )
    } else {
        None
    }
}

fn read_octet(s: &[char]) -> (r: Option<u8>)
    ensures
        match r {
            Some(n) => octet(s@) == Some(n as nat),
            None => octet(s@) is None,
        },
{
    if s.len() > 3 || (s.len() > 0 && s[0] == '+') || (s.len() > 1 && s[0] == '0') {
        None
    } else {
        match read_whole(s, 255) {
            Some(n) => Some(n as u8),
            None => None,
        }
    }
}

impl Ipv4Addr {
    /// The address with the given octets.
    pub fn new(a: u8, b: u8, c: u8, d: u8) -> (ip: Self)
        ensures
            ip == (Ipv4Addr { a, b, c, d }),
    {
        Ipv4Addr { a, b, c, d }
    }

    /// The address with the given number.
    pub fn from_bits(n: u32) -> (ip: Self)
        ensures
            bits(ip) == n,
    {
        Ipv4Addr {
            a: (n / 0x100_0000) as u8,
            b: (n / 0x1_0000 % 0x100) as u8,
            c: (n / 0x100 % 0x100) as u8,
            d: (n % 0x100) as u8,
        }
    }

    /// The four octets.
    pub fn octets(&self) -> (o: [u8; 4])
        ensures
            o@ == seq![self.a, self.b, self.c, self.d],
    {
        let o: [u8; 4] = [self.a, self.b, self.c, self.d];
        assert(o@ =~= seq![self.a, self.b, self.c, self.d]);
        o
    }

    /// Reads an address in dotted decimal.
    pub fn parse(s: &[char]) -> (r: Option<Self>)
        ensures
            r == address(s@),
    {
        let p: Vec<Vec<char>> = split(s, '.');
        assert(p@.len() == spellings(p@).len());
        if p.len() != 4 {
            return None;
        }
        assert(forall|i: int| 0 <= i < 4 ==> spellings(p@)[i] == #[trigger] p@[i]@);
        let a: Option<u8> = read_octet(p[0].as_slice());
        let b: Option<u8> = read_octet(p[1].as_slice());
        let c: Option<u8> = read_octet(p[2].as_slice());
        let d: Option<u8> = read_octet(p[3].as_slice());
        match (a, b, c, d) {
            (Some(a), Some(b), Some(c), Some(d)) => Some(Ipv4Addr { a, b, c, d }),
            _ => None,
        }
    }

    /// The address in dotted decimal.
    pub fn to_text(&self) -> (s: String)
        ensures
            s@ == dotted(*self),
    {
        let mut s: String = String::new();
        push_ip(&mut s, *self);
        assert(s@ =~= dotted(*self));
        s
    }
}

/// Appends an address in dotted decimal.
pub fn push_ip(s: &mut String, ip: Ipv4Addr)
    ensures
        final(s)@ == old(s)@ + dotted(ip),
{
    push_dec(s, ip.a as u64);
    push_char(s, '.');
    push_dec(s, ip.b as u64);
    push_char(s, '.');
    push_dec(s, ip.c as u64);
    push_char(s, '.');
    push_dec(s, ip.d as u64);
    assert(s@ =~= old(s)@ + dotted(ip));
}

/// Different addresses are different numbers.
pub proof fn law_addresses_are_numbers(x: Ipv4Addr, y: Ipv4Addr)
    requires
        bits(x) == bits(y),
    ensures
        x == y,
{
}

} // verus!
