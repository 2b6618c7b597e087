use vstd::prelude::*;

verus! {

/// Selects the bit that tells whether a byte ends a varint.
pub const VAR_MASK: u8 = 0b1000_0000;

/// The value of that bit in the last byte of a varint.
pub const VAR_LAST: u8 = 0b1000_0000;

/// How many bits of the value each byte carries.
pub const VAR_OFFSET: u8 = 7;

/// Selects the value bits of a byte.
pub const VAR_VAL_MASK: u8 = 0b0111_1111;

/// Whether a byte is the last of its varint.
pub open spec fn is_last(byte: u8) -> bool {
    byte & VAR_MASK == VAR_LAST
}

/// The seven value bits of a byte.
pub open spec fn payload(byte: u8) -> u64 {
    (byte & VAR_VAL_MASK) as u64
}

/// The number that the bytes of a varint stand for: each byte carries seven
/// bits, the first byte the lowest. Bits beyond the 64th are lost.
pub open spec fn varint_value(bytes: Seq<u8>) -> u64
    decreases bytes.len(),
{
    if bytes.len() == 0 {
        0
    } else {
        (varint_value(bytes.drop_first()) << 7) | payload(bytes[0])
    }
}

/// Whether the bytes are one whole varint: the last byte, and no other, is
/// marked as last.
pub open spec fn is_varint(bytes: Seq<u8>) -> bool {
    &&& bytes.len() > 0
    &&& is_last(bytes.last())
    &&& forall|i: int| 0 <= i < bytes.len() - 1 ==> !is_last(#[trigger] bytes[i])
}

/// Where the varint that starts at `pos` ends: the position after its last
/// byte, or `None` where the stream ends before the varint does.
pub open spec fn varint_end(stream: Seq<u8>, pos: int) -> Option<int>
    decreases stream.len() - pos,
{
    if pos < 0 || pos >= stream.len() {
        None
    } else if is_last(stream[pos]) {
        Some(pos + 1)
    } else {
        varint_end(stream, pos + 1)
    }
}

/// The varint that starts at `pos`: its value and the position after it.
pub open spec fn varint_at(stream: Seq<u8>, pos: int) -> Option<(u64, int)> {
    match varint_end(stream, pos) {
        Some(end) => Some((varint_value(stream.subrange(pos, end)), end)),
        None => None,
    }
}

/// The shortest varint that stands for `value`.
pub open spec fn varint_encoding(value: u64) -> Seq<u8>
    decreases value,
{
    if value < 128 {
        seq![(value as u8) | VAR_LAST]
    } else {
        seq![(value % 128) as u8] + varint_encoding(value / 128)
    }
}

/// A varint's end lies within the stream and after its start, and the bytes
/// up to it are one whole varint.
pub proof fn lemma_varint_end_bounds(stream: Seq<u8>, pos: int)
    requires
        varint_end(stream, pos).is_some(),
    ensures
        0 <= pos < varint_end(stream, pos).unwrap() <= stream.len(),
        is_varint(stream.subrange(pos, varint_end(stream, pos).unwrap())),
    decreases stream.len() - pos,
{
    let end = varint_end(stream, pos).unwrap();
    if !is_last(stream[pos]) {
        lemma_varint_end_bounds(stream, pos + 1);
        let whole = stream.subrange(pos, end);
        let rest = stream.subrange(pos + 1, end);
        assert forall|i: int| 0 <= i < whole.len() - 1 implies !is_last(#[trigger] whole[i]) by {
            if i > 0 {
                assert(whole[i] == rest[i - 1]);
            }
        }
    }
}

/// Decodes the varint that starts at `pos`.
pub fn decode_varint(stream: &[u8], pos: usize) -> (result: Option<(u64, usize)>)
    ensures
        match result {
            Some((value, end)) => varint_at(stream@, pos as int) == Some((value, end as int)),
            None => varint_at(stream@, pos as int).is_none(),
        },
{
    let mut end: usize = pos;
    loop
        invariant_except_break
            pos <= end,
            end <= stream@.len() ==> varint_end(stream@, pos as int) == varint_end(
                stream@,
                end as int,
            ),
            end > stream@.len() ==> pos > stream@.len(),
        ensures
            pos < end <= stream@.len(),
            varint_end(stream@, pos as int) == Some(end as int),
        decreases stream@.len() - end,
    {
        if end >= stream.len() {
            return None;
        }
        let byte = stream[end];
        end += 1;
        if byte & VAR_MASK == VAR_LAST {
            break ;
        }
    }
    let mut value: u64 = 0;
    let mut at: usize = end;
    while at > pos
        invariant
            pos <= at <= end <= stream@.len(),
            value == varint_value(stream@.subrange(at as int, end as int)),
        decreases at,
    {
        at -= 1;
        assert(stream@.subrange(at as int, end as int).drop_first() =~= stream@.subrange(
            at as int + 1,
            end as int,
        ));
        value = (value << VAR_OFFSET) | ((stream[at] & VAR_VAL_MASK) as u64);
    }
    Some((value, end))
}

/// Encodes a number as the shortest varint that stands for it.
pub fn encode_varint(value: u64) -> (bytes: Vec<u8>)
    ensures
        bytes@ == varint_encoding(value),
{
    let mut bytes: Vec<u8> = Vec::new();
    let mut rest: u64 = value;
    while rest >= 128
        invariant
            varint_encoding(value) == bytes@ + varint_encoding(rest),
        decreases rest,
    {
        bytes.push((rest % 128) as u8);
        rest = rest / 128;
    }
    bytes.push((rest as u8) | VAR_LAST);
    bytes
}

/// How many bytes the shortest varint for `value` takes.
pub open spec fn varint_len(value: u64) -> nat
    decreases value,
{
    if value < 128 {
        1
    } else {
        1 + varint_len(value / 128)
    }
}

proof fn lemma_varint_len_monotonic(a: u64, b: u64)
    requires
        a <= b,
    ensures
        varint_len(a) <= varint_len(b),
    decreases b,
{
    if a >= 128 {
        lemma_varint_len_monotonic(a / 128, b / 128);
    }
}

/// An encoding is one whole varint, as long as `varint_len` says.
pub proof fn lemma_encoding_is_varint(value: u64)
    ensures
        is_varint(varint_encoding(value)),
        varint_encoding(value).len() == varint_len(value),
    decreases value,
{
    if value < 128 {
        let v = value as u8;
        assert((v | 0x80u8) & 0x80u8 == 0x80u8) by (bit_vector);
    } else {
        lemma_encoding_is_varint(value / 128);
        let low = (value % 128) as u8;
        assert(low < 128 ==> low & 0x80u8 != 0x80u8) by (bit_vector);
    }
}

/// Decoding undoes encoding: the encoding of a number stands for that
/// number.
pub proof fn lemma_varint_roundtrip(value: u64)
    ensures
        varint_value(varint_encoding(value)) == value,
    decreases value,
{
    let bytes = varint_encoding(value);
    if value < 128 {
        let v = value as u8;
        assert(varint_value(bytes.drop_first()) == 0);
        assert(v < 128 ==> (0u64 << 7) | (((v | 0x80u8) & 0x7fu8) as u64) == v as u64)
            by (bit_vector);
    } else {
        lemma_varint_roundtrip(value / 128);
        assert(bytes.drop_first() =~= varint_encoding(value / 128));
        assert(((value / 128) << 7) | (((value % 128) as u8 & 0x7fu8) as u64) == value)
            by (bit_vector);
    }
}

/// The encoding is the smallest: no whole varint that stands for the same
/// number is shorter.
pub proof fn lemma_encoding_is_shortest(bytes: Seq<u8>)
    requires
        is_varint(bytes),
    ensures
        varint_encoding(varint_value(bytes)).len() <= bytes.len(),
    decreases bytes.len(),
{
    let value = varint_value(bytes);
    lemma_encoding_is_varint(value);
    if value >= 128 {
        let rest = bytes.drop_first();
        let high = varint_value(rest);
        let low = bytes[0];
        assert(((high << 7) | ((low & 0x7fu8) as u64)) / 128 <= high) by (bit_vector);
        if bytes.len() == 1 {
            assert(((0u64 << 7) | ((low & 0x7fu8) as u64)) < 128) by (bit_vector);
        } else {
            lemma_encoding_is_shortest(rest);
            lemma_encoding_is_varint(high);
            lemma_varint_len_monotonic(value / 128, high);
        }
    }
}

/// A stream that begins with the encoding of a number decodes to that
/// number, and the decoder stops where the encoding ends.
pub proof fn lemma_decode_encoded(value: u64, tail: Seq<u8>)
    ensures
        varint_at(varint_encoding(value) + tail, 0) == Some(
            (value, varint_encoding(value).len() as int),
        ),
{
    let bytes = varint_encoding(value);
    let stream = bytes + tail;
    lemma_encoding_is_varint(value);
    lemma_varint_roundtrip(value);
    lemma_varint_ends_at(stream, 0, bytes.len() as int);
    assert(stream.subrange(0, bytes.len() as int) =~= bytes);
}

/// Where a whole varint lies in a stream, the decoder finds its end.
pub proof fn lemma_varint_ends_at(stream: Seq<u8>, pos: int, end: int)
    requires
        0 <= pos < end <= stream.len(),
        is_varint(stream.subrange(pos, end)),
    ensures
        varint_end(stream, pos) == Some(end),
    decreases end - pos,
{
    let whole = stream.subrange(pos, end);
    assert(whole[0] == stream[pos]);
    if end > pos + 1 {
        let rest = stream.subrange(pos + 1, end);
        assert forall|i: int| 0 <= i < rest.len() - 1 implies !is_last(#[trigger] rest[i]) by {
            assert(rest[i] == whole[i + 1]);
        }
        lemma_varint_ends_at(stream, pos + 1, end);
    }
}

} // verus!
