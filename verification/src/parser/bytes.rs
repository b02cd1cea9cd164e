//! Big-endian numbers and identifiers in byte strings.

use vstd::prelude::*;

verus! {

/// Two bytes as a number.
pub open spec fn be16(p: Seq<u8>, i: int) -> u16 {
    (p[i] * 256 + p[i + 1]) as u16
}

/// Four bytes as a number.
pub open spec fn be32(p: Seq<u8>, i: int) -> u32 {
    (p[i] * 0x100_0000 + p[i + 1] * 0x1_0000 + p[i + 2] * 0x100 + p[i + 3]) as u32
}

/// Eight bytes as a number.
pub open spec fn be64(p: Seq<u8>, i: int) -> u64 {
    (be32(p, i) * 0x1_0000_0000 + be32(p, i + 4)) as u64
}

/// Six bytes as a MAC address.
pub open spec fn mac_at(p: Seq<u8>, i: int) -> [u8; 6] {
    [p[i], p[i + 1], p[i + 2], p[i + 3], p[i + 4], p[i + 5]]
}

/// Eight bytes as an identifier.
pub open spec fn id_at(p: Seq<u8>, i: int) -> [u8; 8] {
    [p[i], p[i + 1], p[i + 2], p[i + 3], p[i + 4], p[i + 5], p[i + 6], p[i + 7]]
}

/// Reads two bytes as a number.
pub fn read16(p: &[u8], i: usize) -> (n: u16)
    requires
        i + 2 <= p@.len(),
    ensures
        n == be16(p@, i as int),
        n == p@[i as int] * 256 + p@[i + 1],
{
    let _: usize = p.len();
    p[i] as u16 * 256 + p[i + 1] as u16
}

/// Reads four bytes as a number.
pub fn read32(p: &[u8], i: usize) -> (n: u32)
    requires
        i + 4 <= p@.len(),
    ensures
        n == be32(p@, i as int),
{
    let _: usize = p.len();
    p[i] as u32 * 0x100_0000 + p[i + 1] as u32 * 0x1_0000 + p[i + 2] as u32 * 0x100 + p[i
        + 3] as u32
}

/// Reads eight bytes as a number.
pub fn read64(p: &[u8], i: usize) -> (n: u64)
    requires
        i + 8 <= p@.len(),
    ensures
        n == be64(p@, i as int),
{
    let _: usize = p.len();
    read32(p, i) as u64 * 0x1_0000_0000 + read32(p, i + 4) as u64
}

/// Reads six bytes as a MAC address.
pub fn read_mac(p: &[u8], i: usize) -> (m: [u8; 6])
    requires
        i + 6 <= p@.len(),
    ensures
        m == mac_at(p@, i as int),
{
    let _: usize = p.len();
    [p[i], p[i + 1], p[i + 2], p[i + 3], p[i + 4], p[i + 5]]
}

/// Reads eight bytes as an identifier.
pub fn read_id(p: &[u8], i: usize) -> (m: [u8; 8])
    requires
        i + 8 <= p@.len(),
    ensures
        m == id_at(p@, i as int),
{
    let _: usize = p.len();
    [p[i], p[i + 1], p[i + 2], p[i + 3], p[i + 4], p[i + 5], p[i + 6], p[i + 7]]
}

/// Whether two byte strings are the same.
pub fn same_bytes(a: &[u8], b: &[u8]) -> (r: bool)
    ensures
        r == (a@ == b@),
{
    if a.len() != b.len() {
        return false;
    }
    let mut i: usize = 0;
    while i < a.len()
        invariant
            a@.len() == b@.len(),
            i <= a@.len(),
            forall|j: int| 0 <= j < i ==> a@[j] == b@[j],
        decreases a@.len() - i,
    {
        if a[i] != b[i] {
            return false;
        }
        i += 1;
    }
    assert(a@ =~= b@);
    true
}

} // verus!
