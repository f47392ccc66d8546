//! The byte layout the wager program shares with its clients.
//!
//! Integers are little-endian, fixed-size arrays are their elements one
//! after the other with no length in front, a struct is its fields in order,
//! and an enum is one byte for the variant followed by the variant's fields.

use vstd::prelude::*;

verus! {

/// Why bytes were refused, or an account could not be changed.
#[derive(Clone, Copy, Debug, PartialEq, Eq, Structural)]
pub enum WagerError {
    /// The bytes are not an instruction.
    InvalidInstructionData,
    /// The bytes are not an account.
    InvalidAccountData,
    /// An address is not the one derived for its seeds.
    InvalidArgument,
    /// A counter or a balance does not fit its width.
    ArithmeticOverflow,
}

/// The two bytes of `x`, low byte first.
pub open spec fn le16(x: u16) -> Seq<u8> {
    seq![(x % 256) as u8, (x / 256) as u8]
}

/// The four bytes of `x`, low byte first.
pub open spec fn le32(x: u32) -> Seq<u8> {
    seq![
        (x % 256) as u8,
        (x / 256 % 256) as u8,
        (x / 65536 % 256) as u8,
        (x / 16777216) as u8,
    ]
}

/// Appends the two bytes of `x`.
pub fn put_u16(out: &mut Vec<u8>, x: u16)
    ensures
        final(out)@ == old(out)@ + le16(x),
{
    out.push((x % 256) as u8);
    out.push((x / 256) as u8);
    assert(out@ =~= old(out)@ + le16(x));
}

/// Appends the four bytes of `x`.
pub fn put_u32(out: &mut Vec<u8>, x: u32)
    ensures
        final(out)@ == old(out)@ + le32(x),
{
    out.push((x % 256) as u8);
    out.push((x / 256 % 256) as u8);
    out.push((x / 65536 % 256) as u8);
    out.push((x / 16777216) as u8);
    assert(out@ =~= old(out)@ + le32(x));
}

/// Appends the twenty bytes of `name`.
pub fn put_name(out: &mut Vec<u8>, name: &[u8; 20])
    ensures
        final(out)@ == old(out)@ + name@,
{
    let mut i: usize = 0;
    while i < 20
        invariant
            i <= 20,
            out@ == old(out)@ + name@.take(i as int),
        decreases 20 - i,
    {
        out.push(name[i]);
        i += 1;
        assert(out@ =~= old(out)@ + name@.take(i as int));
    }
    assert(name@.take(20) =~= name@);
}

/// Writes `data` over the beginning of `dst`. What follows it in `dst` stays.
pub fn overwrite(dst: &mut [u8], data: &Vec<u8>)
    requires
        data@.len() <= old(dst)@.len(),
    ensures
        final(dst)@ == data@ + old(dst)@.skip(data@.len() as int),
{
    let n = data.len();
    let mut i: usize = 0;
    while i < n
        invariant
            i <= n,
            n == data@.len(),
            dst@.len() == old(dst)@.len(),
            n <= dst@.len(),
            forall|k: int| 0 <= k < i ==> dst@[k] == data@[k],
            forall|k: int| i <= k < dst@.len() ==> dst@[k] == old(dst)@[k],
        decreases n - i,
    {
        dst[i] = data[i];
        i += 1;
    }
    assert(dst@ =~= data@ + old(dst)@.skip(data@.len() as int));
}

/// Reads the two bytes at `at` as an integer.
pub fn get_u16(src: &[u8], at: usize) -> (x: u16)
    requires
        at + 2 <= src.len(),
    ensures
        le16(x) == src@.subrange(at as int, at + 2),
{
    let x: u16 = src[at] as u16 + (src[at + 1] as u16) * 256;
    assert(le16(x) =~= src@.subrange(at as int, at + 2));
    x
}

/// Reads the four bytes at `at` as an integer.
pub fn get_u32(src: &[u8], at: usize) -> (x: u32)
    requires
        at + 4 <= src.len(),
    ensures
        le32(x) == src@.subrange(at as int, at + 4),
{
    let b0: u32 = src[at] as u32;
    let b1: u32 = src[at + 1] as u32;
    let b2: u32 = src[at + 2] as u32;
    let b3: u32 = src[at + 3] as u32;
    let high: u32 = b2 + b3 * 256;
    let x: u32 = b0 + b1 * 256 + high * 65536;
    proof {
        assert(x / 65536 == high && x % 65536 == b0 + b1 * 256);
        assert(x % 256 == b0);
        assert(x / 256 == b1 + high * 256);
        assert(x / 256 % 256 == b1);
        assert(x / 65536 % 256 == b2);
        assert(high / 256 == b3);
        assert(x / 16777216 == b3);
        assert(le32(x) =~= src@.subrange(at as int, at + 4));
    }
    x
}

/// Reads the twenty bytes at `at`.
pub fn get_name(src: &[u8], at: usize) -> (name: [u8; 20])
    requires
        at + 20 <= src.len(),
    ensures
        name@ == src@.subrange(at as int, at + 20),
{
    let n = src.len();
    let mut name: [u8; 20] = [0u8; 20];
    let mut i: usize = 0;
    while i < 20
        invariant
            i <= 20,
            n == src@.len(),
            at + 20 <= n,
            forall|k: int| 0 <= k < i ==> name@[k] == src@[at + k],
        decreases 20 - i,
    {
        name[i] = src[at + i];
        i += 1;
    }
    assert(name@ =~= src@.subrange(at as int, at + 20));
    name
}

/// An integer is determined by its two bytes.
pub proof fn lemma_le16_injective(a: u16, b: u16)
    requires
        le16(a) == le16(b),
    ensures
        a == b,
{
    assert(le16(a)[0] == le16(b)[0]);
    assert(le16(a)[1] == le16(b)[1]);
}

/// An integer is determined by its four bytes.
pub proof fn lemma_le32_injective(a: u32, b: u32)
    requires
        le32(a) == le32(b),
    ensures
        a == b,
{
    assert(le32(a)[0] == le32(b)[0]);
    assert(le32(a)[1] == le32(b)[1]);
    assert(le32(a)[2] == le32(b)[2]);
    assert(le32(a)[3] == le32(b)[3]);
}

} // verus!
