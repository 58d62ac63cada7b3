//! Bytes: comparison, search and numbers in them.
use vstd::prelude::*;

use crate::text::{first_from, stands_at};

verus! {

/// The number that bytes stand for, least significant first.
pub open spec fn little_value(b: Seq<u8>) -> int
    decreases b.len(),
{
    if b.len() == 0 {
        0
    } else {
        b[0] as int + 256 * little_value(b.skip(1))
    }
}

/// The number that bytes stand for, most significant first.
pub open spec fn big_value(b: Seq<u8>) -> int
    decreases b.len(),
{
    if b.len() == 0 {
        0
    } else {
        256 * big_value(b.drop_last()) + b.last() as int
    }
}

/// Whether an offset or size can be held.
pub open spec fn fits(n: int) -> bool {
    n <= usize::MAX
}

/// The two bytes at `at` as a number, least significant first.
pub open spec fn u16_at(b: Seq<u8>, at: int) -> int {
    b[at] as int + 256 * b[at + 1] as int
}

/// The four bytes at `at` as a number, least significant first.
pub open spec fn u32_at(b: Seq<u8>, at: int) -> int {
    u16_at(b, at) + 65536 * u16_at(b, at + 2)
}

/// The two bytes at `at` as a number, most significant first.
pub open spec fn u16_be_at(b: Seq<u8>, at: int) -> int {
    256 * b[at] as int + b[at + 1] as int
}

/// The four bytes at `at` as a number, most significant first.
pub open spec fn u32_be_at(b: Seq<u8>, at: int) -> int {
    65536 * u16_be_at(b, at) + u16_be_at(b, at + 2)
}

/// The eight bytes at `at` as a number, least significant first.
pub open spec fn u64_at(b: Seq<u8>, at: int) -> int {
    u32_at(b, at) + 0x1_0000_0000 * u32_at(b, at + 4)
}

/// The eight bytes at `at` as a number, most significant first.
pub open spec fn u64_be_at(b: Seq<u8>, at: int) -> int {
    0x1_0000_0000 * u32_be_at(b, at) + u32_be_at(b, at + 4)
}

pub fn read_u16_le(bytes: &[u8], offset: usize) -> (r: Option<u16>)
    ensures
        match r {
            Some(n) => offset + 2 <= bytes@.len() && n == u16_at(bytes@, offset as int),
            None => offset + 2 > bytes@.len(),
        },
{
    if bytes.len() < 2 || offset > bytes.len() - 2 {
        return None;
    }
    Some(bytes[offset] as u16 + 256 * (bytes[offset + 1] as u16))
}

pub fn read_u32_le(bytes: &[u8], offset: usize) -> (r: Option<u32>)
    ensures
        match r {
            Some(n) => offset + 4 <= bytes@.len() && n == u32_at(bytes@, offset as int),
            None => offset + 4 > bytes@.len(),
        },
{
    if bytes.len() < 4 || offset > bytes.len() - 4 {
        return None;
    }
    let low: u32 = bytes[offset] as u32 + 256 * (bytes[offset + 1] as u32);
    let high: u32 = bytes[offset + 2] as u32 + 256 * (bytes[offset + 3] as u32);
    Some(low + 65536 * high)
}

pub fn read_u16_be(bytes: &[u8], offset: usize) -> (r: Option<u16>)
    ensures
        match r {
            Some(n) => offset + 2 <= bytes@.len() && n == u16_be_at(bytes@, offset as int),
            None => offset + 2 > bytes@.len(),
        },
{
    if bytes.len() < 2 || offset > bytes.len() - 2 {
        return None;
    }
    Some(256 * (bytes[offset] as u16) + bytes[offset + 1] as u16)
}

pub fn read_u32_be(bytes: &[u8], offset: usize) -> (r: Option<u32>)
    ensures
        match r {
            Some(n) => offset + 4 <= bytes@.len() && n == u32_be_at(bytes@, offset as int),
            None => offset + 4 > bytes@.len(),
        },
{
    if bytes.len() < 4 || offset > bytes.len() - 4 {
        return None;
    }
    let high: u32 = 256 * (bytes[offset] as u32) + bytes[offset + 1] as u32;
    let low: u32 = 256 * (bytes[offset + 2] as u32) + bytes[offset + 3] as u32;
    Some(65536 * high + low)
}

pub fn read_u64_le(bytes: &[u8], offset: usize) -> (r: Option<u64>)
    ensures
        match r {
            Some(n) => offset + 8 <= bytes@.len() && n == u64_at(bytes@, offset as int),
            None => offset + 8 > bytes@.len(),
        },
{
    if bytes.len() < 8 || offset > bytes.len() - 8 {
        return None;
    }
    match (read_u32_le(bytes, offset), read_u32_le(bytes, offset + 4)) {
        (Some(low), Some(high)) => Some(low as u64 + 0x1_0000_0000 * (high as u64)),
        _ => None,
    }
}

pub fn read_u64_be(bytes: &[u8], offset: usize) -> (r: Option<u64>)
    ensures
        match r {
            Some(n) => offset + 8 <= bytes@.len() && n == u64_be_at(bytes@, offset as int),
            None => offset + 8 > bytes@.len(),
        },
{
    if bytes.len() < 8 || offset > bytes.len() - 8 {
        return None;
    }
    match (read_u32_be(bytes, offset), read_u32_be(bytes, offset + 4)) {
        (Some(high), Some(low)) => Some(0x1_0000_0000 * (high as u64) + low as u64),
        _ => None,
    }
}

/// Whether `needle` stands in `hay` at `at`.
pub fn bytes_at(hay: &[u8], needle: &[u8], at: usize) -> (r: bool)
    ensures
        r == stands_at(hay@, needle@, at as int),
{
    if at > hay.len() || needle.len() > hay.len() - at {
        return false;
    }
    let mut i: usize = 0;
    while i < needle.len()
        invariant
            at + needle.len() <= hay.len(),
            i <= needle@.len(),
            forall|k: int| 0 <= k < i ==> hay@[at + k] == needle@[k],
        decreases needle.len() - i,
    {
        if hay[at + i] != needle[i] {
            assert(hay@.subrange(at as int, at + needle@.len())[i as int] != needle@[i as int]);
            return false;
        }
        i += 1;
    }
    assert(hay@.subrange(at as int, at + needle@.len()) =~= needle@);
    true
}

/// The first occurrence of `needle` in `hay` at or after `from`.
pub fn find_bytes(hay: &[u8], needle: &[u8], from: usize) -> (r: Option<usize>)
    ensures
        match r {
            Some(at) => first_from(hay@, needle@, from as int) == Some(at as int) && from <= at && at
                + needle@.len() <= hay@.len(),
            None => first_from(hay@, needle@, from as int) is None,
        },
{
    if from > hay.len() {
        return None;
    }
    let mut at: usize = from;
    while at <= hay.len() && needle.len() <= hay.len() - at
        invariant
            from <= at <= hay@.len() + 1,
            first_from(hay@, needle@, from as int) == first_from(hay@, needle@, at as int),
            hay@.len() <= usize::MAX - 1 || at <= hay@.len(),
        decreases hay.len() + 1 - at,
    {
        if bytes_at(hay, needle, at) {
            return Some(at);
        }
        if at == hay.len() {
            assert(first_from(hay@, needle@, at as int + 1) is None);
            return None;
        }
        at += 1;
    }
    None
}

/// The first position of `byte` at or after `from`, or the end.
pub open spec fn end_before(b: Seq<u8>, byte: u8, from: int) -> int
    decreases b.len() - from,
{
    if from >= b.len() || b[from] == byte {
        from
    } else {
        end_before(b, byte, from + 1)
    }
}

pub fn position_or_end(bytes: &[u8], byte: u8) -> (r: usize)
    ensures
        r == end_before(bytes@, byte, 0),
        r <= bytes@.len(),
{
    let mut i: usize = 0;
    while i < bytes.len() && bytes[i] != byte
        invariant
            i <= bytes@.len(),
            end_before(bytes@, byte, 0) == end_before(bytes@, byte, i as int),
        decreases bytes.len() - i,
    {
        i += 1;
    }
    i
}

proof fn lemma_big_value(b: Seq<u8>)
    ensures
        big_value(b) >= 0,
    decreases b.len(),
{
    if b.len() > 0 {
        lemma_big_value(b.drop_last());
    }
}

proof fn lemma_big_value_grows(b: Seq<u8>, i: int)
    requires
        0 <= i <= b.len(),
    ensures
        big_value(b.take(i)) <= big_value(b),
    decreases b.len() - i,
{
    if i < b.len() {
        lemma_big_value_grows(b, i + 1);
        assert(b.take(i + 1).drop_last() =~= b.take(i));
        lemma_big_value(b.take(i));
    } else {
        assert(b.take(i) =~= b);
    }
}

/// Reads bytes as one number, most significant first, if it can be held.
pub fn read_big(bytes: &Vec<u8>) -> (r: Option<u64>)
    ensures
        match r {
            Some(n) => big_value(bytes@) == n,
            None => big_value(bytes@) > u64::MAX,
        },
{
    let mut total: u64 = 0;
    let mut i: usize = 0;
    assert(bytes@.take(0) =~= Seq::<u8>::empty());
    while i < bytes.len()
        invariant
            i <= bytes@.len(),
            total == big_value(bytes@.take(i as int)),
        decreases bytes.len() - i,
    {
        assert(bytes@.take(i + 1).drop_last() =~= bytes@.take(i as int));
        let next: u128 = 256 * (total as u128) + bytes[i] as u128;
        proof {
            lemma_big_value_grows(bytes@, i + 1);
        }
        if next > 0xffff_ffff_ffff_ffff {
            return None;
        }
        total = next as u64;
        i += 1;
    }
    assert(bytes@.take(bytes@.len() as int) =~= bytes@);
    Some(total)
}

proof fn lemma_little_value(b: Seq<u8>)
    ensures
        0 <= little_value(b),
        b.len() <= 8 ==> little_value(b) <= u64::MAX,
        b.len() <= 7 ==> little_value(b) < 0x100_0000_0000_0000,
        b.len() <= 6 ==> little_value(b) < 0x1_0000_0000_0000,
        b.len() <= 5 ==> little_value(b) < 0x100_0000_0000,
        b.len() <= 4 ==> little_value(b) < 0x1_0000_0000,
        b.len() <= 3 ==> little_value(b) < 0x100_0000,
        b.len() <= 2 ==> little_value(b) < 0x1_0000,
        b.len() <= 1 ==> little_value(b) < 0x100,
        b.len() <= 0 ==> little_value(b) < 1,
    decreases b.len(),
{
    if b.len() > 0 {
        lemma_little_value(b.skip(1));
    }
}

/// Reads one to eight bytes as a number, least significant first.
pub fn little_endian_integer(bytes: &[u8]) -> (r: Option<u64>)
    ensures
        match r {
            Some(n) => 1 <= bytes@.len() <= 8 && n == little_value(bytes@),
            None => bytes@.len() == 0 || bytes@.len() > 8,
        },
{
    if bytes.len() == 0 || bytes.len() > 8 {
        return None;
    }
    let mut total: u64 = 0;
    let mut i: usize = bytes.len();
    assert(bytes@.skip(bytes@.len() as int) =~= Seq::<u8>::empty());
    while i > 0
        invariant
            1 <= bytes@.len() <= 8,
            i <= bytes@.len(),
            total == little_value(bytes@.skip(i as int)),
        decreases i,
    {
        assert(bytes@.skip(i - 1).skip(1) =~= bytes@.skip(i as int));
        proof {
            lemma_little_value(bytes@.skip(i - 1));
        }
        i -= 1;
        total = bytes[i] as u64 + 256 * total;
    }
    assert(bytes@.skip(0) =~= bytes@);
    Some(total)
}

pub fn copy_bytes(bytes: &[u8]) -> (r: Vec<u8>)
    ensures
        r@ == bytes@,
{
    let mut r: Vec<u8> = Vec::new();
    let mut i: usize = 0;
    while i < bytes.len()
        invariant
            i <= bytes@.len(),
            r@ == bytes@.take(i as int),
        decreases bytes.len() - i,
    {
        r.push(bytes[i]);
        assert(bytes@.take(i + 1) =~= bytes@.take(i as int).push(bytes@[i as int]));
        i += 1;
    }
    assert(bytes@.take(bytes@.len() as int) =~= bytes@);
    r
}

} // verus!
