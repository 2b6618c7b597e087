use vstd::prelude::*;
use crate::frontend::varint::{decode_varint, lemma_varint_end_bounds, varint_at};

verus! {

/// A trace of performance counters: which counters were sampled, and the
/// values that were read.
#[derive(Debug)]
pub struct CounterTrace {
    /// One bit for each counter that was sampled.
    pub header: u32,
    /// The numbers of the counters that were sampled, in rising order.
    pub target_counters: Vec<u32>,
    /// The values read, in the order of the trace.
    pub counters: Vec<u64>,
}

/// Whether bit `index` of `mask` is set.
pub open spec fn bit_set(mask: u32, index: u32) -> bool {
    mask & (1u32 << index) != 0
}

/// The numbers below `upto` of the bits that are set in `mask`, in rising
/// order.
pub open spec fn set_bits(mask: u32, upto: nat) -> Seq<u32>
    decreases upto,
{
    if upto == 0 {
        seq![]
    } else {
        let rest = set_bits(mask, (upto - 1) as nat);
        if bit_set(mask, (upto - 1) as u32) {
            rest.push((upto - 1) as u32)
        } else {
            rest
        }
    }
}

/// The number that four bytes stand for, the lowest byte first.
pub open spec fn le_u32(b0: u8, b1: u8, b2: u8, b3: u8) -> u32 {
    (b0 as u32) | ((b1 as u32) << 8) | ((b2 as u32) << 16) | ((b3 as u32) << 24)
}

/// The varints that follow one another from `pos` on, up to the end of
/// the stream or to the first that is cut off.
pub open spec fn varints_from(stream: Seq<u8>, pos: int) -> Seq<u64>
    decreases stream.len() - pos,
{
    match varint_at(stream, pos) {
        Some((value, end)) => if pos < end <= stream.len() {
            seq![value] + varints_from(stream, end)
        } else {
            seq![value]
        },
        None => seq![],
    }
}

/// A number is among the set bits exactly if its bit is set.
pub proof fn lemma_set_bits_contains(mask: u32, upto: nat, index: u32)
    requires
        upto <= 32,
    ensures
        set_bits(mask, upto).contains(index) <==> index < upto && bit_set(mask, index),
    decreases upto,
{
    if upto > 0 {
        let rest = set_bits(mask, (upto - 1) as nat);
        lemma_set_bits_contains(mask, (upto - 1) as nat, index);
        if bit_set(mask, (upto - 1) as u32) {
            let all = rest.push((upto - 1) as u32);
            if rest.contains(index) {
                let at = choose|i: int| 0 <= i < rest.len() && rest[i] == index;
                assert(all[at] == index);
            }
            assert(all[rest.len() as int] == (upto - 1) as u32);
        }
    }
}

/// Turns a mask with one bit for each counter into the numbers of the
/// counters whose bits are set, in rising order.
pub fn ohe2indices(mask: u32) -> (indices: Vec<u32>)
    ensures
        indices@ == set_bits(mask, 32),
{
    let mut indices: Vec<u32> = Vec::new();
    let mut i: u32 = 0;
    while i < 32
        invariant
            i <= 32,
            indices@ == set_bits(mask, i as nat),
        decreases 32 - i,
    {
        if (mask & (1u32 << i)) != 0 {
            indices.push(i);
        }
        i += 1;
    }
    indices
}

/// Reads a 32-bit number at `pos`, the lowest byte first.
pub fn read_u32(stream: &[u8], pos: usize) -> (value: Option<u32>)
    ensures
        match value {
            Some(v) => pos + 4 <= stream@.len() && v == le_u32(
                stream@[pos as int],
                stream@[pos + 1],
                stream@[pos + 2],
                stream@[pos + 3],
            ),
            None => pos + 4 > stream@.len(),
        },
{
    if stream.len() < 4 || pos > stream.len() - 4 {
        return None;
    }
    Some(
        (stream[pos] as u32) | ((stream[pos + 1] as u32) << 8) | ((stream[pos + 2] as u32) << 16)
            | ((stream[pos + 3] as u32) << 24),
    )
}

/// Decodes a trace of performance counters: a 32-bit header with one bit
/// for each counter sampled, then the values as varints, up to the end of
/// the trace or to the first value that is cut off.
pub fn decode_counters(stream: &[u8]) -> (trace: Option<CounterTrace>)
    ensures
        match trace {
            Some(t) => stream@.len() >= 4 && t.header == le_u32(
                stream@[0],
                stream@[1],
                stream@[2],
                stream@[3],
            ) && t.target_counters@ == set_bits(t.header, 32) && t.counters@ == varints_from(
                stream@,
                4,
            ),
            None => stream@.len() < 4,
        },
{
    let header = match read_u32(stream, 0) {
        Some(header) => header,
        None => {
            return None;
        },
    };
    let target_counters = ohe2indices(header);
    let mut counters: Vec<u64> = Vec::new();
    let mut pos: usize = 4;
    loop
        invariant
            4 <= pos <= stream@.len(),
            header == le_u32(stream@[0], stream@[1], stream@[2], stream@[3]),
            target_counters@ == set_bits(header, 32),
            varints_from(stream@, 4) == counters@ + varints_from(stream@, pos as int),
        decreases stream@.len() - pos,
    {
        match decode_varint(stream, pos) {
            Some((counter, end)) => {
                proof {
                    lemma_varint_end_bounds(stream@, pos as int);
                }
                counters.push(counter);
                pos = end;
            },
            None => {
                return Some(CounterTrace { header, target_counters, counters });
            },
        }
    }
}

} // verus!
