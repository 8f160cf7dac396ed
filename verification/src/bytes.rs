//! Little-endian integers and sample arrays.

use vstd::prelude::*;

verus! {

/// The unsigned 16-bit value whose little-endian bytes stand at `at`.
pub open spec fn le_u16_at(bytes: Seq<u8>, at: int) -> int {
    bytes[at] + 256 * bytes[at + 1]
}

/// The unsigned 32-bit value whose little-endian bytes stand at `at`.
pub open spec fn le_u32_at(bytes: Seq<u8>, at: int) -> int {
    bytes[at] + 256 * bytes[at + 1] + 65536 * bytes[at + 2] + 16777216 * bytes[at + 3]
}

/// The signed 32-bit value (two's complement) whose little-endian bytes
/// stand at `at`.
pub open spec fn le_i32_at(bytes: Seq<u8>, at: int) -> int {
    let u = le_u32_at(bytes, at);
    if u >= 0x8000_0000 {
        u - 0x1_0000_0000
    } else {
        u
    }
}

/// The four little-endian bytes of a signed 32-bit value.
pub open spec fn i32_le_bytes(v: i32) -> Seq<u8> {
    let u: int = if v < 0 {
        v + 0x1_0000_0000
    } else {
        v as int
    };
    seq![
        (u % 256) as u8,
        ((u / 256) % 256) as u8,
        ((u / 65536) % 256) as u8,
        (u / 16777216) as u8,
    ]
}

/// Reading back the bytes of a value gives the value.
pub proof fn lemma_i32_le_round_trip(v: i32)
    ensures
        i32_le_bytes(v).len() == 4,
        le_i32_at(i32_le_bytes(v), 0) == v,
{
    let u: int = if v < 0 {
        v + 0x1_0000_0000
    } else {
        v as int
    };
    let b = i32_le_bytes(v);
    assert(0 <= u < 0x1_0000_0000);
    assert(b[0] == u % 256);
    assert(b[1] == (u / 256) % 256);
    assert(b[2] == (u / 65536) % 256);
    assert(b[3] == u / 16777216);
    assert(u == (u % 256) + 256 * ((u / 256) % 256) + 65536 * ((u / 65536) % 256) + 16777216 * (u
        / 16777216));
}

/// Reads an unsigned 16-bit little-endian value.
pub fn read_u16_le(bytes: &[u8], at: usize) -> (v: u16)
    requires
        at + 2 <= bytes@.len(),
    ensures
        v == le_u16_at(bytes@, at as int),
{
    let b0: u16 = bytes[at] as u16;
    let b1: u16 = bytes[at + 1] as u16;
    b0 + 256 * b1
}

/// Reads an unsigned 32-bit little-endian value.
pub fn read_u32_le(bytes: &[u8], at: usize) -> (v: u32)
    requires
        at + 4 <= bytes@.len(),
    ensures
        v == le_u32_at(bytes@, at as int),
{
    let b0: u32 = bytes[at] as u32;
    let b1: u32 = bytes[at + 1] as u32;
    let b2: u32 = bytes[at + 2] as u32;
    let b3: u32 = bytes[at + 3] as u32;
    b0 + 256 * b1 + 65536 * b2 + 16777216 * b3
}

/// Reads a signed 32-bit little-endian value.
pub fn read_i32_le(bytes: &[u8], at: usize) -> (v: i32)
    requires
        at + 4 <= bytes@.len(),
    ensures
        v == le_i32_at(bytes@, at as int),
{
    let u: u32 = read_u32_le(bytes, at);
    if u >= 0x8000_0000u32 {
        let low: i32 = (u - 0x8000_0000u32) as i32;
        low + i32::MIN
    } else {
        u as i32
    }
}

/// The samples of a frame of 16-bit pixels: one per complete pair of bytes,
/// least-significant byte first. A trailing odd byte is dropped.
pub open spec fn samples_u16(frame: Seq<u8>) -> Seq<u16> {
    Seq::new((frame.len() / 2) as nat, |i: int| le_u16_at(frame, 2 * i) as u16)
}

/// The samples of a frame of 32-bit pixels: one per complete group of four
/// bytes, least-significant byte first. Trailing bytes short of a group are
/// dropped.
pub open spec fn samples_u32(frame: Seq<u8>) -> Seq<u32> {
    Seq::new((frame.len() / 4) as nat, |i: int| le_u32_at(frame, 4 * i) as u32)
}

/// Copies a frame of 8-bit pixels: each byte is its own sample.
pub fn decode_samples_u8(frame: &[u8]) -> (samples: Vec<u8>)
    ensures
        samples@ == frame@,
{
    let mut samples: Vec<u8> = Vec::new();
    let mut i: usize = 0;
    while i < frame.len()
        invariant
            i <= frame@.len(),
            samples@ == frame@.subrange(0, i as int),
        decreases frame@.len() - i,
    {
        samples.push(frame[i]);
        i += 1;
        assert(samples@ =~= frame@.subrange(0, i as int));
    }
    assert(frame@.subrange(0, i as int) =~= frame@);
    samples
}

/// Rebuilds the 16-bit samples of a frame.
pub fn decode_samples_u16(frame: &[u8]) -> (samples: Vec<u16>)
    ensures
        samples@ == samples_u16(frame@),
{
    let len: usize = frame.len();
    let count: usize = len / 2;
    let mut samples: Vec<u16> = Vec::new();
    let mut i: usize = 0;
    while i < count
        invariant
            len == frame@.len(),
            count == len / 2,
            i <= count,
            samples@.len() == i,
            forall|k: int| 0 <= k < i ==> samples@[k] == le_u16_at(frame@, 2 * k) as u16,
        decreases count - i,
    {
        let v: u16 = read_u16_le(frame, 2 * i);
        samples.push(v);
        i += 1;
    }
    assert(samples@ =~= samples_u16(frame@));
    samples
}

/// Rebuilds the 32-bit samples of a frame.
pub fn decode_samples_u32(frame: &[u8]) -> (samples: Vec<u32>)
    ensures
        samples@ == samples_u32(frame@),
{
    let len: usize = frame.len();
    let count: usize = len / 4;
    let mut samples: Vec<u32> = Vec::new();
    let mut i: usize = 0;
    while i < count
        invariant
            len == frame@.len(),
            count == len / 4,
            i <= count,
            samples@.len() == i,
            forall|k: int| 0 <= k < i ==> samples@[k] == le_u32_at(frame@, 4 * k) as u32,
        decreases count - i,
    {
        let v: u32 = read_u32_le(frame, 4 * i);
        samples.push(v);
        i += 1;
    }
    assert(samples@ =~= samples_u32(frame@));
    samples
}

} // verus!
