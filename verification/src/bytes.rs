//! Byte-string helpers shared by the encoders.

use vstd::prelude::*;

verus! {

/// `n` zero bytes.
pub open spec fn zeros(n: nat) -> Seq<u8> {
    Seq::new(n, |i: int| 0u8)
}

/// Big-endian encoding of a 16-bit value.
pub open spec fn be16(x: u16) -> Seq<u8> {
    seq![(x / 256) as u8, (x % 256) as u8]
}

/// Big-endian encoding of a 32-bit value.
pub open spec fn be32(x: u32) -> Seq<u8> {
    seq![(x / 0x100_0000) as u8, (x / 0x1_0000 % 256) as u8, (x / 256 % 256) as u8, (x % 256) as u8]
}

/// The value of four big-endian bytes.
pub open spec fn be32_value(b: Seq<u8>) -> u32 {
    (b[0] as int * 0x100_0000 + b[1] as int * 0x1_0000 + b[2] as int * 256 + b[3] as int) as u32
}

/// The value of two big-endian bytes.
pub open spec fn be16_value(b: Seq<u8>) -> u16 {
    (b[0] as int * 256 + b[1] as int) as u16
}

/// Little-endian encoding of a 16-bit value.
pub open spec fn le16(x: u16) -> Seq<u8> {
    seq![(x % 256) as u8, (x / 256) as u8]
}

/// Little-endian encoding of a 32-bit value.
pub open spec fn le32(x: u32) -> Seq<u8> {
    seq![(x % 256) as u8, (x / 256 % 256) as u8, (x / 0x1_0000 % 256) as u8, (x / 0x100_0000) as u8]
}

/// The value of two little-endian bytes.
pub open spec fn le16_value(b: Seq<u8>) -> u16 {
    (b[1] as int * 256 + b[0] as int) as u16
}

/// The value of four little-endian bytes.
pub open spec fn le32_value(b: Seq<u8>) -> u32 {
    (b[3] as int * 0x100_0000 + b[2] as int * 0x1_0000 + b[1] as int * 256 + b[0] as int) as u32
}

/// A byte order for multi-byte numbers.
#[derive(Debug, Clone, Copy, PartialEq, Eq, Structural)]
pub enum ByteOrder {
    Little,
    Big,
}

/// `x` in byte order `order`.
pub open spec fn order32(order: ByteOrder, x: u32) -> Seq<u8> {
    match order {
        ByteOrder::Little => le32(x),
        ByteOrder::Big => be32(x),
    }
}

/// `x` in byte order `order`.
pub open spec fn order16(order: ByteOrder, x: u16) -> Seq<u8> {
    match order {
        ByteOrder::Little => le16(x),
        ByteOrder::Big => be16(x),
    }
}

/// The value of four bytes read in byte order `order`.
pub open spec fn read32(order: ByteOrder, b: Seq<u8>) -> u32 {
    match order {
        ByteOrder::Little => le32_value(b),
        ByteOrder::Big => be32_value(b),
    }
}

/// The value of two bytes read in byte order `order`.
pub open spec fn read16(order: ByteOrder, b: Seq<u8>) -> u16 {
    match order {
        ByteOrder::Little => le16_value(b),
        ByteOrder::Big => be16_value(b),
    }
}

/// Appends `data` to `out`.
pub fn extend_bytes(out: &mut Vec<u8>, data: &[u8])
    ensures
        final(out)@ == old(out)@ + data@,
{
    out.extend_from_slice(data);
    assert(out@ =~= old(out)@ + data@);
}

/// A copy of `data`.
pub fn copy_bytes(data: &[u8]) -> (r: Vec<u8>)
    ensures
        r@ == data@,
{
    let mut out: Vec<u8> = Vec::new();
    extend_bytes(&mut out, data);
    assert(out@ =~= data@);
    out
}

/// A vector of `n` zero bytes.
pub fn zero_bytes(n: usize) -> (r: Vec<u8>)
    ensures
        r@ == zeros(n as nat),
{
    let r = vec![0u8; n];
    assert(r@ =~= zeros(n as nat));
    r
}

/// Appends `n` zero bytes to `out`.
pub fn push_zeros(out: &mut Vec<u8>, n: usize)
    ensures
        final(out)@ == old(out)@ + zeros(n as nat),
{
    let z = zero_bytes(n);
    extend_bytes(out, z.as_slice());
}

/// Big-endian bytes of a 16-bit value.
pub fn be16_bytes(x: u16) -> (r: [u8; 2])
    ensures
        r@ == be16(x),
{
    let r = [(x / 256) as u8, (x % 256) as u8];
    assert(r@ =~= be16(x));
    r
}

/// Big-endian bytes of a 32-bit value.
pub fn be32_bytes(x: u32) -> (r: [u8; 4])
    ensures
        r@ == be32(x),
{
    let r = [(x / 0x100_0000) as u8, (x / 0x1_0000 % 256) as u8, (x / 256 % 256) as u8, (x % 256) as u8];
    assert(r@ =~= be32(x));
    r
}

/// The bytes of `x` in byte order `order`.
pub fn bytes32(order: ByteOrder, x: u32) -> (r: [u8; 4])
    ensures
        r@ == order32(order, x),
{
    match order {
        ByteOrder::Big => be32_bytes(x),
        ByteOrder::Little => {
            let r = [(x % 256) as u8, (x / 256 % 256) as u8, (x / 0x1_0000 % 256) as u8, (x / 0x100_0000) as u8];
            assert(r@ =~= le32(x));
            r
        },
    }
}

/// The bytes of `x` in byte order `order`.
pub fn bytes16(order: ByteOrder, x: u16) -> (r: [u8; 2])
    ensures
        r@ == order16(order, x),
{
    match order {
        ByteOrder::Big => be16_bytes(x),
        ByteOrder::Little => {
            let r = [(x % 256) as u8, (x / 256) as u8];
            assert(r@ =~= le16(x));
            r
        },
    }
}

/// The value of the first four bytes of `b` in byte order `order`.
pub fn value32(order: ByteOrder, b: &[u8]) -> (r: u32)
    requires
        b@.len() >= 4,
    ensures
        r == read32(order, b@),
{
    match order {
        ByteOrder::Big => be32_from(b),
        ByteOrder::Little => {
            let v: u64 = b[3] as u64 * 0x100_0000 + b[2] as u64 * 0x1_0000 + b[1] as u64 * 256 + b[0] as u64;
            v as u32
        },
    }
}

/// The value of the first two bytes of `b` in byte order `order`.
pub fn value16(order: ByteOrder, b: &[u8]) -> (r: u16)
    requires
        b@.len() >= 2,
    ensures
        r == read16(order, b@),
{
    match order {
        ByteOrder::Big => {
            let v: u32 = b[0] as u32 * 256 + b[1] as u32;
            v as u16
        },
        ByteOrder::Little => {
            let v: u32 = b[1] as u32 * 256 + b[0] as u32;
            v as u16
        },
    }
}

/// The value of the first four bytes of `b`, big-endian.
pub fn be32_from(b: &[u8]) -> (r: u32)
    requires
        b@.len() >= 4,
    ensures
        r == be32_value(b@),
{
    let v: u64 = b[0] as u64 * 0x100_0000 + b[1] as u64 * 0x1_0000 + b[2] as u64 * 256 + b[3] as u64;
    v as u32
}

/// Whether two byte strings are equal.
pub fn bytes_equal(a: &[u8], b: &[u8]) -> (r: bool)
    ensures
        r == (a@ == b@),
{
    if a.len() != b.len() {
        return false;
    }
    let mut i: usize = 0;
    while i < a.len()
        invariant
            a@.len() == b@.len(),
            i <= a@.len(),
            forall|j: int| 0 <= j < i ==> a@[j] == b@[j],
        decreases a@.len() - i,
    {
        if a[i] != b[i] {
            return false;
        }
        i = i + 1;
    }
    assert(a@ =~= b@);
    true
}

} // verus!
