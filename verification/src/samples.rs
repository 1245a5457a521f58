//! Sample packet payloads.
//!
//! ADC samples travel to the host as packets of 16-bit codes, two bytes per
//! sample. The bulk transport uses little-endian byte order; the serial
//! path uses big-endian. Decoding takes every complete two-byte pair and
//! ignores a trailing odd byte. `convert_to_millivolts` rescales a raw code
//! against a measured internal-reference sample, as the capture path does
//! before streaming.

use vstd::prelude::*;

verus! {

/// The 16-bit value of a little-endian byte pair.
pub open spec fn le16(lo: u8, hi: u8) -> int {
    lo as int + 256 * hi as int
}

/// The 16-bit value of a big-endian byte pair.
pub open spec fn be16(hi: u8, lo: u8) -> int {
    256 * hi as int + lo as int
}

/// Decodes little-endian sample bytes: one sample per complete byte pair, a
/// trailing odd byte ignored.
pub fn decode_samples_le(bytes: &[u8]) -> (r: Vec<u16>)
    ensures
        r@.len() == bytes@.len() / 2,
        forall|i: int|
            0 <= i < r@.len() ==> (#[trigger] r@[i]) as int == le16(bytes@[2 * i], bytes@[2 * i + 1]),
{
    let mut r: Vec<u16> = Vec::new();
    let len = bytes.len();
    let n = len / 2;
    let mut i: usize = 0;
    while i < n
        invariant
            len == bytes@.len(),
            n == bytes@.len() / 2,
            2 * n <= bytes@.len(),
            i <= n,
            r@.len() == i,
            forall|j: int|
                0 <= j < i ==> (#[trigger] r@[j]) as int == le16(
                    bytes@[2 * j],
                    bytes@[2 * j + 1],
                ),
        decreases n - i,
    {
        let lo = bytes[2 * i];
        let hi = bytes[2 * i + 1];
        r.push((lo as u16) + 256 * (hi as u16));
        i = i + 1;
    }
    r
}

/// Decodes big-endian sample bytes: one sample per complete byte pair, a
/// trailing odd byte ignored.
pub fn decode_samples_be(bytes: &[u8]) -> (r: Vec<u16>)
    ensures
        r@.len() == bytes@.len() / 2,
        forall|i: int|
            0 <= i < r@.len() ==> (#[trigger] r@[i]) as int == be16(bytes@[2 * i], bytes@[2 * i + 1]),
{
    let mut r: Vec<u16> = Vec::new();
    let len = bytes.len();
    let n = len / 2;
    let mut i: usize = 0;
    while i < n
        invariant
            len == bytes@.len(),
            n == bytes@.len() / 2,
            2 * n <= bytes@.len(),
            i <= n,
            r@.len() == i,
            forall|j: int|
                0 <= j < i ==> (#[trigger] r@[j]) as int == be16(
                    bytes@[2 * j],
                    bytes@[2 * j + 1],
                ),
        decreases n - i,
    {
        let hi = bytes[2 * i];
        let lo = bytes[2 * i + 1];
        r.push(256 * (hi as u16) + (lo as u16));
        i = i + 1;
    }
    r
}

/// Encodes samples as little-endian bytes, two per sample.
pub fn encode_samples_le(samples: &Vec<u16>) -> (r: Vec<u8>)
    requires
        samples@.len() <= usize::MAX / 2,
    ensures
        r@.len() == 2 * samples@.len(),
        forall|i: int|
            0 <= i < samples@.len() ==> le16(#[trigger] r@[2 * i], r@[2 * i + 1]) == samples@[i] as int,
{
    let mut r: Vec<u8> = Vec::new();
    let mut i: usize = 0;
    while i < samples.len()
        invariant
            samples@.len() <= usize::MAX / 2,
            i <= samples@.len(),
            r@.len() == 2 * i,
            forall|j: int|
                0 <= j < i ==> le16(#[trigger] r@[2 * j], r@[2 * j + 1]) == samples@[j] as int,
        decreases samples@.len() - i,
    {
        let s = samples[i];
        r.push((s % 256) as u8);
        r.push((s / 256) as u8);
        i = i + 1;
    }
    r
}

/// Encodes samples as big-endian bytes, two per sample.
pub fn encode_samples_be(samples: &Vec<u16>) -> (r: Vec<u8>)
    requires
        samples@.len() <= usize::MAX / 2,
    ensures
        r@.len() == 2 * samples@.len(),
        forall|i: int|
            0 <= i < samples@.len() ==> be16(#[trigger] r@[2 * i], r@[2 * i + 1]) == samples@[i] as int,
{
    let mut r: Vec<u8> = Vec::new();
    let mut i: usize = 0;
    while i < samples.len()
        invariant
            samples@.len() <= usize::MAX / 2,
            i <= samples@.len(),
            r@.len() == 2 * i,
            forall|j: int|
                0 <= j < i ==> be16(#[trigger] r@[2 * j], r@[2 * j + 1]) == samples@[j] as int,
        decreases samples@.len() - i,
    {
        let s = samples[i];
        r.push((s / 256) as u8);
        r.push((s % 256) as u8);
        i = i + 1;
    }
    r
}

/// Rescales a raw ADC code to millivolts against a measured
/// internal-reference sample: `sample * vref_int_mv / vrefint_sample`,
/// truncated. The quotient must fit 16 bits; with a millivolt-scale
/// reference and a 12-bit ADC it always does.
pub fn convert_to_millivolts(sample: u16, vref_int_mv: u32, vrefint_sample: u32) -> (mv: u16)
    requires
        0 < vrefint_sample,
        vref_int_mv <= 65535,
        sample as int * vref_int_mv as int / vrefint_sample as int <= 65535,
    ensures
        mv as int == sample as int * vref_int_mv as int / vrefint_sample as int,
{
    proof {
        crate::arith::lemma_mul_bounds(sample as int, 65535, vref_int_mv as int, 65535);
        vstd::arithmetic::div_mod::lemma_div_pos_is_pos(
            sample as int * vref_int_mv as int,
            vrefint_sample as int,
        );
    }
    ((sample as u32 * vref_int_mv) / vrefint_sample) as u16
}

} // verus!
