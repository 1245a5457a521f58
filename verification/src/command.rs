//! Host-to-sensor command schema and its compact wire encoding.
//!
//! A command is either `SetFrequency`, carrying the excitation sample-clock
//! frequency and the ADC sampling period to switch to, or `Record`, asking
//! for one captured sample block. On the wire a command is a variant tag
//! byte, followed for `SetFrequency` by the frequency as a base-128 varint
//! (low groups first, high bit marking continuation, at most five bytes)
//! and one sampling-period tag byte. Decoding ignores bytes after a
//! complete command, so a command may be read from the front of a padded
//! packet.

use vstd::prelude::*;

use crate::arith::{lemma_mod_range, lemma_mul_bounds};

verus! {

/// ADC sampling time, in ADC clock cycles, as the hardware names them.
#[allow(non_camel_case_types)]
#[derive(Clone, Copy, Debug, PartialEq, Eq, Structural)]
pub enum AdcSamplingPeriod {
    CYCLES1_5,
    CYCLES7_5,
    CYCLES13_5,
    CYCLES28_5,
    CYCLES41_5,
    CYCLES55_5,
    CYCLES71_5,
    CYCLES239_5,
}

/// The ADC clock frequency the sampling periods are counted against.
pub const ADC_CLOCK_HZ: u32 = 12000000;

/// Twice the total sampling time in ADC clock cycles — sampling cycles plus
/// the conversion overhead of 12.5 cycles — an exact integer for every
/// variant. The sampling period in seconds is this value divided by twice
/// the ADC clock frequency.
pub open spec fn half_cycles_spec(p: AdcSamplingPeriod) -> int {
    match p {
        AdcSamplingPeriod::CYCLES1_5 => 28,
        AdcSamplingPeriod::CYCLES7_5 => 40,
        AdcSamplingPeriod::CYCLES13_5 => 52,
        AdcSamplingPeriod::CYCLES28_5 => 82,
        AdcSamplingPeriod::CYCLES41_5 => 108,
        AdcSamplingPeriod::CYCLES55_5 => 136,
        AdcSamplingPeriod::CYCLES71_5 => 168,
        AdcSamplingPeriod::CYCLES239_5 => 504,
    }
}

/// Wire tag of a sampling period.
pub open spec fn period_tag(p: AdcSamplingPeriod) -> int {
    match p {
        AdcSamplingPeriod::CYCLES1_5 => 0,
        AdcSamplingPeriod::CYCLES7_5 => 1,
        AdcSamplingPeriod::CYCLES13_5 => 2,
        AdcSamplingPeriod::CYCLES28_5 => 3,
        AdcSamplingPeriod::CYCLES41_5 => 4,
        AdcSamplingPeriod::CYCLES55_5 => 5,
        AdcSamplingPeriod::CYCLES71_5 => 6,
        AdcSamplingPeriod::CYCLES239_5 => 7,
    }
}

/// The sampling period a wire tag stands for, for tags up to seven.
pub open spec fn tag_period(t: int) -> AdcSamplingPeriod {
    if t == 0 {
        AdcSamplingPeriod::CYCLES1_5
    } else if t == 1 {
        AdcSamplingPeriod::CYCLES7_5
    } else if t == 2 {
        AdcSamplingPeriod::CYCLES13_5
    } else if t == 3 {
        AdcSamplingPeriod::CYCLES28_5
    } else if t == 4 {
        AdcSamplingPeriod::CYCLES41_5
    } else if t == 5 {
        AdcSamplingPeriod::CYCLES55_5
    } else if t == 6 {
        AdcSamplingPeriod::CYCLES71_5
    } else {
        AdcSamplingPeriod::CYCLES239_5
    }
}

impl AdcSamplingPeriod {
    /// Twice the total sampling time in ADC clock cycles; see
    /// `half_cycles_spec`.
    pub fn total_half_cycles(&self) -> (c: u32)
        ensures
            c as int == half_cycles_spec(*self),
    {
        match self {
            AdcSamplingPeriod::CYCLES1_5 => 28,
            AdcSamplingPeriod::CYCLES7_5 => 40,
            AdcSamplingPeriod::CYCLES13_5 => 52,
            AdcSamplingPeriod::CYCLES28_5 => 82,
            AdcSamplingPeriod::CYCLES41_5 => 108,
            AdcSamplingPeriod::CYCLES55_5 => 136,
            AdcSamplingPeriod::CYCLES71_5 => 168,
            AdcSamplingPeriod::CYCLES239_5 => 504,
        }
    }
}

/// A command from the host.
#[derive(Clone, Copy, Debug, PartialEq, Eq, Structural)]
pub enum Command {
    /// Retune the excitation sample clock and the ADC sampling period.
    SetFrequency { frequency_hz: u32, adc_sampling_period: AdcSamplingPeriod },
    /// Capture and return one sample block.
    Record,
}

/// Base-128 varint encoding of a nonnegative value: low seven-bit groups
/// first, the high bit of a byte marking that more follow.
pub open spec fn varint32(v: int) -> Seq<u8>
    decreases v,
{
    if v < 128 {
        seq![v as u8]
    } else {
        seq![(v % 128 + 128) as u8] + varint32(v / 128)
    }
}

/// 128 to the `j`-th power.
pub open spec fn pow128(j: int) -> int
    decreases j,
{
    if j <= 0 {
        1
    } else {
        128 * pow128(j - 1)
    }
}

/// Parses a base-128 varint from the front of a byte sequence, reading at
/// most `fuel` bytes: the value and the number of bytes consumed.
pub open spec fn parse_varint(b: Seq<u8>, fuel: int) -> Option<(int, int)>
    decreases fuel,
{
    if fuel <= 0 || b.len() == 0 {
        None
    } else if b[0] < 128 {
        Some((b[0] as int, 1))
    } else {
        match parse_varint(b.drop_first(), fuel - 1) {
            None => None,
            Some((v, k)) => Some((b[0] as int - 128 + 128 * v, k + 1)),
        }
    }
}

/// Wire encoding of a command.
pub open spec fn encode_command(c: Command) -> Seq<u8> {
    match c {
        Command::SetFrequency { frequency_hz, adc_sampling_period } => seq![0u8] + varint32(
            frequency_hz as int,
        ) + seq![period_tag(adc_sampling_period) as u8],
        Command::Record => seq![1u8],
    }
}

/// Wire decoding of a command from the front of a byte sequence: `None` on
/// an empty sequence, an unknown variant or period tag, a varint running
/// past five bytes or the end, a frequency beyond 32 bits, or a missing
/// period byte.
pub open spec fn decode_command(b: Seq<u8>) -> Option<Command> {
    if b.len() == 0 {
        None
    } else if b[0] == 1 {
        Some(Command::Record)
    } else if b[0] == 0 {
        match parse_varint(b.drop_first(), 5) {
            None => None,
            Some((v, k)) => {
                if v > 0xffffffff {
                    None
                } else if b.len() < k + 2 {
                    None
                } else if b[k + 1] > 7 {
                    None
                } else {
                    Some(
                        Command::SetFrequency {
                            frequency_hz: v as u32,
                            adc_sampling_period: tag_period(b[k + 1] as int),
                        },
                    )
                }
            },
        }
    } else {
        None
    }
}

/// A varint parse consumes the bytes the encoder wrote and recovers the
/// value, whatever follows, as long as the value fits the parser's fuel.
proof fn lemma_parse_varint_of_encoding(v: int, rest: Seq<u8>, fuel: int)
    requires
        0 <= v,
        v < pow128(fuel),
        1 <= fuel,
    ensures
        parse_varint(varint32(v) + rest, fuel) == Some::<(int, int)>((v, varint32(v).len() as int)),
    decreases fuel,
{
    let b = varint32(v) + rest;
    if v < 128 {
        assert(b[0] == v as u8);
    } else {
        lemma_mod_range(v, 128);
        assert(b[0] == (v % 128 + 128) as u8);
        assert(b.drop_first() =~= varint32(v / 128) + rest);
        crate::arith::lemma_nonneg_div_lt(v, 128, pow128(fuel - 1));
        lemma_parse_varint_of_encoding(v / 128, rest, fuel - 1);
        vstd::arithmetic::div_mod::lemma_fundamental_div_mod(v, 128);
    }
}

/// Round trip: decoding a sequence that starts with the encoding of a
/// command recovers exactly that command, whatever follows it.
pub proof fn lemma_command_round_trip(c: Command, rest: Seq<u8>)
    ensures
        decode_command(encode_command(c) + rest) == Some(c),
{
    match c {
        Command::Record => {
            assert((encode_command(c) + rest)[0] == 1u8);
        },
        Command::SetFrequency { frequency_hz, adc_sampling_period } => {
            let b = encode_command(c) + rest;
            let f = frequency_hz as int;
            let tail = varint32(f) + (seq![period_tag(adc_sampling_period) as u8] + rest);
            assert(b[0] == 0u8);
            assert(b.drop_first() =~= tail);
            assert(f < pow128(5)) by {
                reveal_with_fuel(pow128, 6);
                assert(pow128(5) == 128 * (128 * (128 * (128 * (128 * 1)))));
            }
            lemma_parse_varint_of_encoding(
                f,
                seq![period_tag(adc_sampling_period) as u8] + rest,
                5,
            );
            let k = varint32(f).len() as int;
            assert(tail[k] == (seq![period_tag(adc_sampling_period) as u8] + rest)[0]);
            assert(b[k + 1] == tail[k]);
            assert(tag_period(period_tag(adc_sampling_period)) == adc_sampling_period);
        },
    }
}

impl Command {
    /// Encodes the command for the wire.
    pub fn serialize(&self) -> (out: Vec<u8>)
        ensures
            out@ == encode_command(*self),
    {
        let mut out: Vec<u8> = Vec::new();
        match self {
            Command::Record => {
                out.push(1);
                proof {
                    assert(out@ =~= encode_command(*self));
                }
            },
            Command::SetFrequency { frequency_hz, adc_sampling_period } => {
                out.push(0);
                let mut v: u32 = *frequency_hz;
                while v >= 128
                    invariant
                        out@.len() >= 1,
                        out@[0] == 0u8,
                        seq![0u8] + varint32(frequency_hz as int) =~= out@ + varint32(v as int),
                    decreases v,
                {
                    proof {
                        lemma_mod_range(v as int, 128);
                        vstd::arithmetic::div_mod::lemma_div_is_strictly_smaller(v as int, 128);
                    }
                    let ghost v_old = v as int;
                    out.push((v % 128 + 128) as u8);
                    v = v / 128;
                    proof {
                        assert(varint32(v_old) =~= seq![(v_old % 128 + 128) as u8] + varint32(
                            v_old / 128,
                        ));
                        assert(seq![0u8] + varint32(frequency_hz as int) =~= out@ + varint32(
                            v as int,
                        ));
                    }
                }
                out.push(v as u8);
                let tag: u8 = match adc_sampling_period {
                    AdcSamplingPeriod::CYCLES1_5 => 0,
                    AdcSamplingPeriod::CYCLES7_5 => 1,
                    AdcSamplingPeriod::CYCLES13_5 => 2,
                    AdcSamplingPeriod::CYCLES28_5 => 3,
                    AdcSamplingPeriod::CYCLES41_5 => 4,
                    AdcSamplingPeriod::CYCLES55_5 => 5,
                    AdcSamplingPeriod::CYCLES71_5 => 6,
                    AdcSamplingPeriod::CYCLES239_5 => 7,
                };
                out.push(tag);
                proof {
                    assert(out@ =~= encode_command(*self));
                }
            },
        }
        out
    }

    /// Decodes a command from the front of a byte slice; bytes after a
    /// complete command are ignored.
    pub fn deserialize(bytes: &[u8]) -> (r: Option<Command>)
        ensures
            r == decode_command(bytes@),
    {
        if bytes.len() == 0 {
            return None;
        }
        let tag0 = bytes[0];
        if tag0 == 1 {
            return Some(Command::Record);
        }
        if tag0 != 0 {
            return None;
        }
        proof {
            assert(bytes@.drop_first().skip(0) =~= bytes@.drop_first());
            reveal_with_fuel(pow128, 6);
            assert(pow128(5) == 128 * (128 * (128 * (128 * (128 * 1)))));
        }
        // Parse the frequency varint starting after the variant tag.
        let mut j: usize = 0;
        let mut acc: u64 = 0;
        let mut w: u64 = 1;
        let mut value: Option<u64> = None;
        loop
            invariant_except_break
                value is None,
            invariant
                bytes@.len() >= 1,
                bytes@[0] == 0u8,
                0 <= j <= 5,
                j + 1 <= bytes@.len(),
                w as int == pow128(j as int),
                w <= 34359738368,
                0 <= acc as int && (acc as int) < w as int,
                parse_varint(bytes@.drop_first(), 5) == (match parse_varint(
                    bytes@.drop_first().skip(j as int),
                    5 - j as int,
                ) {
                    None => None::<(int, int)>,
                    Some((v, k)) => Some((acc as int + w as int * v, j as int + k)),
                }),
            ensures
                0 <= j <= 5,
                ({
                    match value {
                        None => parse_varint(bytes@.drop_first(), 5) is None,
                        Some(total) => parse_varint(bytes@.drop_first(), 5) matches Some((v, k))
                            && v == total as int && k == j as int + 1,
                    }
                }),
            decreases 6 - j,
        {
            if j >= 5 {
                // Fuel exhausted: the varint is too long.
                break ;
            }
            if j + 1 >= bytes.len() {
                // The byte sequence ended inside the varint.
                proof {
                    assert(bytes@.drop_first().skip(j as int).len() == 0);
                }
                break ;
            }
            proof {
                lemma_pow128_monotone(j as int, 4);
                reveal_with_fuel(pow128, 6);
                assert(pow128(4) == 128 * (128 * (128 * (128 * 1))));
            }
            let c = bytes[j + 1];
            let ghost suff = bytes@.drop_first().skip(j as int);
            proof {
                assert(suff[0] == bytes@[j as int + 1]);
            }
            if c < 128 {
                proof {
                    lemma_mul_bounds(w as int, 268435456, c as int, 127);
                    assert(parse_varint(suff, 5 - j as int) == Some::<(int, int)>((
                        c as int,
                        1,
                    )));
                }
                value = Some(acc + w * (c as u64));
                break ;
            }
            proof {
                assert(suff.drop_first() =~= bytes@.drop_first().skip(j as int + 1));
                lemma_mul_bounds(w as int, 268435456, c as int - 128, 127);
                assert forall|v: int, k: int|
                    parse_varint(bytes@.drop_first().skip(j as int + 1), 5 - (j as int + 1))
                        == Some::<(int, int)>((v, k)) implies acc as int + w as int * (c as int
                    - 128 + 128 * v) == (acc as int + w as int * (c as int - 128)) + (w as int
                    * 128) * v && j as int + (k + 1) == (j as int + 1) + k by {
                    assert(w as int * (c as int - 128 + 128 * v) == w as int * (c as int - 128) + (
                    w as int * 128) * v) by (nonlinear_arith);
                }
                assert(acc as int + w as int * (c as int - 128) < (w as int) * 128)
                    by (nonlinear_arith)
                    requires
                        0 <= acc as int && (acc as int) < w as int,
                        128 <= c as int <= 255,
                        0 < w as int,
                ;
            }
            acc = acc + w * ((c - 128) as u64);
            w = w * 128;
            j = j + 1;
        }
        let total = match value {
            None => {
                return None;
            },
            Some(t) => t,
        };
        if total > 0xffffffff {
            return None;
        }
        if bytes.len() < j + 3 {
            // The sampling-period byte is missing.
            return None;
        }
        let ptag = bytes[j + 2];
        if ptag > 7 {
            return None;
        }
        let period = match ptag {
            0 => AdcSamplingPeriod::CYCLES1_5,
            1 => AdcSamplingPeriod::CYCLES7_5,
            2 => AdcSamplingPeriod::CYCLES13_5,
            3 => AdcSamplingPeriod::CYCLES28_5,
            4 => AdcSamplingPeriod::CYCLES41_5,
            5 => AdcSamplingPeriod::CYCLES55_5,
            6 => AdcSamplingPeriod::CYCLES71_5,
            _ => AdcSamplingPeriod::CYCLES239_5,
        };
        Some(Command::SetFrequency { frequency_hz: total as u32, adc_sampling_period: period })
    }
}

/// Powers of 128 grow with the exponent.
proof fn lemma_pow128_monotone(a: int, b: int)
    requires
        0 <= a <= b,
    ensures
        pow128(a) <= pow128(b),
        1 <= pow128(a),
    decreases b,
{
    if b > 0 {
        if a == b {
            lemma_pow128_monotone(a - 1, b - 1);
        } else {
            lemma_pow128_monotone(a, b - 1);
        }
    }
}

} // verus!
