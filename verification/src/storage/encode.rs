//! The record encoder, and the proof that the decoder undoes it.

use crate::errors::FormatError;
use crate::storage::record::{
    all_serial_types_valid, be_signed, be_unsigned, byte_limit, decode_values_from,
    header_codes_from, serial_type_valid, serial_type_width, spec_decode_record,
    spec_decode_value, twos_complement, values_view, Value, ValueView,
};
use crate::storage::varint::{
    encoded_len, lemma_read_written_varint, spec_read_varint, spec_write_varint, varint_len,
    write_varint,
};
use vstd::prelude::*;

verus! {

/// The longest blob or text whose serial type fits in 64 bits.
pub const MAX_LENGTH: u64 = 0x7FFF_FFFF_FFFF_FFF9;

/// The longest run of encoded serial types whose header length fits in 64 bits.
pub const MAX_HEADER_BODY: u64 = 0xFFFF_FFFF_FFFF_FFF6;

/// The width in bytes of the shortest two's-complement form that holds `v`,
/// among the widths that the format has.
pub open spec fn integer_width(v: i64) -> nat {
    if -0x80 <= v < 0x80 {
        1
    } else if -0x8000 <= v < 0x8000 {
        2
    } else if -0x80_0000 <= v < 0x80_0000 {
        3
    } else if -0x8000_0000 <= v < 0x8000_0000 {
        4
    } else if -0x8000_0000_0000 <= v < 0x8000_0000_0000 {
        6
    } else {
        8
    }
}

/// The serial type under which `value` is stored: the two integers that
/// have a serial type of their own take it, every other integer the
/// narrowest width that holds it.
pub open spec fn spec_serial_type(value: ValueView) -> u64 {
    match value {
        ValueView::Null => 0,
        ValueView::Integer(v) => if v == 0 {
            8
        } else if v == 1 {
            9
        } else if integer_width(v) == 6 {
            5
        } else if integer_width(v) == 8 {
            6
        } else {
            integer_width(v) as u64
        },
        ValueView::Real(_) => 7,
        ValueView::Blob(b) => (12 + 2 * b.len()) as u64,
        ValueView::Text(t) => (13 + 2 * t.len()) as u64,
    }
}

/// The `width` low bytes of `u`, most significant first.
pub open spec fn be_bytes(u: nat, width: nat) -> Seq<u8>
    decreases width,
{
    if width == 0 {
        Seq::empty()
    } else {
        be_bytes(u / 256, (width - 1) as nat).push((u % 256) as u8)
    }
}

/// The unsigned integer whose `width` bytes are the two's-complement form of `v`.
pub open spec fn twos_unsigned(v: int, width: nat) -> nat {
    if v < 0 {
        (v + byte_limit(width)) as nat
    } else {
        v as nat
    }
}

/// The bytes that `value` takes in the value area.
pub open spec fn spec_encode_value(value: ValueView) -> Seq<u8> {
    match value {
        ValueView::Null => Seq::empty(),
        ValueView::Integer(v) => if v == 0 || v == 1 {
            Seq::empty()
        } else {
            be_bytes(twos_unsigned(v as int, integer_width(v)), integer_width(v))
        },
        ValueView::Real(bits) => be_bytes(bits as nat, 8),
        ValueView::Blob(b) => b,
        ValueView::Text(t) => t,
    }
}

/// The first `k` of `chunks`, one behind the other.
pub open spec fn concat_first(chunks: Seq<Seq<u8>>, k: nat) -> Seq<u8>
    decreases k,
{
    if k == 0 {
        Seq::empty()
    } else {
        concat_first(chunks, (k - 1) as nat) + chunks[k - 1]
    }
}

/// The encoded serial type of each value.
pub open spec fn type_chunks(values: Seq<ValueView>) -> Seq<Seq<u8>> {
    Seq::new(values.len(), |i: int| spec_write_varint(spec_serial_type(values[i])))
}

/// The bytes of each value.
pub open spec fn value_chunks(values: Seq<ValueView>) -> Seq<Seq<u8>> {
    Seq::new(values.len(), |i: int| spec_encode_value(values[i]))
}

/// The length of a header whose serial types take `body` bytes: `body` and
/// the bytes of the length itself.
pub open spec fn header_len(body: nat) -> nat {
    if body + 1 < 0x80 {
        body + 1
    } else if body + 2 < 0x4000 {
        body + 2
    } else if body + 3 < 0x20_0000 {
        body + 3
    } else if body + 4 < 0x1000_0000 {
        body + 4
    } else if body + 5 < 0x8_0000_0000 {
        body + 5
    } else if body + 6 < 0x400_0000_0000 {
        body + 6
    } else if body + 7 < 0x2_0000_0000_0000 {
        body + 7
    } else if body + 8 < 0x100_0000_0000_0000 {
        body + 8
    } else {
        body + 9
    }
}

/// Whether `value` can be stored: a blob or a text must be short enough for
/// its serial type to fit in 64 bits.
pub open spec fn value_encodable(value: ValueView) -> bool {
    match value {
        ValueView::Blob(b) => b.len() <= MAX_LENGTH,
        ValueView::Text(t) => t.len() <= MAX_LENGTH,
        _ => true,
    }
}

/// Whether a record of these values can be encoded: each value can be
/// stored, and the header length fits in 64 bits.
pub open spec fn record_encodable(values: Seq<ValueView>) -> bool {
    &&& forall|i: int| 0 <= i < values.len() ==> value_encodable(#[trigger] values[i])
    &&& concat_first(type_chunks(values), values.len()).len() <= MAX_HEADER_BODY
}

/// The record of `values`: the header length, the serial types, the values.
pub open spec fn spec_encode_record(values: Seq<ValueView>) -> Seq<u8> {
    let types = concat_first(type_chunks(values), values.len());
    spec_write_varint(header_len(types.len()) as u64) + types + concat_first(
        value_chunks(values),
        values.len(),
    )
}

/// Chunk `k` stands in the concatenation of the first `m` chunks, behind
/// the first `k`.
proof fn lemma_concat_chunk(chunks: Seq<Seq<u8>>, k: nat, m: nat)
    requires
        k < m <= chunks.len(),
    ensures
        concat_first(chunks, k + 1).len() == concat_first(chunks, k).len() + chunks[k as int].len(),
        concat_first(chunks, k + 1).len() <= concat_first(chunks, m).len(),
        concat_first(chunks, m).subrange(
            concat_first(chunks, k).len() as int,
            concat_first(chunks, k + 1).len() as int,
        ) == chunks[k as int],
    decreases m,
{
    if m > k + 1 {
        lemma_concat_chunk(chunks, k, (m - 1) as nat);
    }
}

/// `be_bytes(u, width)` has `width` bytes.
proof fn lemma_be_bytes_len(u: nat, width: nat)
    ensures
        be_bytes(u, width).len() == width,
    decreases width,
{
    if width > 0 {
        lemma_be_bytes_len(u / 256, (width - 1) as nat);
    }
}

/// Reading the bytes of `u` as a big-endian integer gives `u`.
proof fn lemma_be_round_trip(bytes: Seq<u8>, at: int, u: nat, width: nat)
    requires
        width <= 8,
        u < byte_limit(width),
        0 <= at,
        at + width <= bytes.len(),
        bytes.subrange(at, at + width) == be_bytes(u, width),
    ensures
        be_unsigned(bytes, at, width) == u,
    decreases width,
{
    if width > 0 {
        let w = (width - 1) as nat;
        lemma_be_bytes_len(u / 256, w);
        assert(bytes.subrange(at, at + w) =~= be_bytes(u / 256, w));
        lemma_be_round_trip(bytes, at, u / 256, w);
        assert(bytes[at + w] == bytes.subrange(at, at + width)[w as int]);
    }
}

/// Where the bytes of `value` stand at `at`, decoding there under the
/// value's serial type gives `value` back, and the serial type declares as
/// many bytes as the value takes.
proof fn lemma_value_round_trip(bytes: Seq<u8>, at: int, value: ValueView)
    requires
        value_encodable(value),
        0 <= at,
        at + spec_encode_value(value).len() <= bytes.len(),
        bytes.subrange(at, at + spec_encode_value(value).len()) == spec_encode_value(value),
    ensures
        serial_type_valid(spec_serial_type(value)),
        serial_type_width(spec_serial_type(value)) == spec_encode_value(value).len(),
        spec_decode_value(bytes, at, spec_serial_type(value)) == value,
{
    match value {
        ValueView::Null => {},
        ValueView::Integer(v) => {
            if v != 0 && v != 1 {
                let w = integer_width(v);
                let u = twos_unsigned(v as int, w);
                lemma_be_bytes_len(u, w);
                lemma_be_round_trip(bytes, at, u, w);
            }
        },
        ValueView::Real(bits) => {
            lemma_be_bytes_len(bits as nat, 8);
            lemma_be_round_trip(bytes, at, bits as nat, 8);
        },
        ValueView::Blob(b) => {},
        ValueView::Text(t) => {},
    }
}

/// Reading the header of an encoded record passes over its first `k`
/// serial types and has then read exactly these.
proof fn lemma_header_steps(
    bytes: Seq<u8>,
    start: int,
    end: int,
    codes: Seq<u64>,
    chunks: Seq<Seq<u8>>,
    k: nat,
)
    requires
        chunks.len() == codes.len(),
        forall|i: int| 0 <= i < codes.len() ==> #[trigger] chunks[i] == spec_write_varint(codes[i]),
        0 <= start,
        k <= codes.len(),
        end == start + concat_first(chunks, codes.len()).len(),
        end <= bytes.len(),
        bytes.subrange(start, end) == concat_first(chunks, codes.len()),
    ensures
        start + concat_first(chunks, k).len() <= end,
        header_codes_from(bytes, start, end, Seq::empty()) == header_codes_from(
            bytes,
            start + concat_first(chunks, k).len(),
            end,
            codes.take(k as int),
        ),
    decreases k,
{
    if k == 0 {
        assert(codes.take(0) =~= Seq::<u64>::empty());
    } else {
        let j = (k - 1) as nat;
        lemma_header_steps(bytes, start, end, codes, chunks, j);
        lemma_concat_chunk(chunks, j, codes.len());
        let pos = start + concat_first(chunks, j).len();
        let code = codes[j as int];
        let encoded = spec_write_varint(code);
        let before = bytes.take(pos);
        let after = bytes.skip(pos + encoded.len());
        assert(bytes =~= before + encoded + after);
        lemma_read_written_varint(before, code, after);
        assert(codes.take(j as int).push(code) =~= codes.take(k as int));
    }
}

/// Decoding the value area of an encoded record passes over its first `k`
/// values and has then decoded exactly these.
proof fn lemma_values_steps(
    bytes: Seq<u8>,
    start: int,
    codes: Seq<u64>,
    values: Seq<ValueView>,
    k: nat,
)
    requires
        codes.len() == values.len(),
        forall|i: int| 0 <= i < values.len() ==> #[trigger] codes[i] == spec_serial_type(values[i]),
        forall|i: int| 0 <= i < values.len() ==> value_encodable(#[trigger] values[i]),
        0 <= start,
        k <= values.len(),
        start + concat_first(value_chunks(values), values.len()).len() <= bytes.len(),
        bytes.subrange(
            start,
            start + concat_first(value_chunks(values), values.len()).len(),
        ) == concat_first(value_chunks(values), values.len()),
    ensures
        decode_values_from(bytes, start, codes, 0, Seq::empty()) == decode_values_from(
            bytes,
            start + concat_first(value_chunks(values), k).len(),
            codes,
            k,
            values.take(k as int),
        ),
    decreases k,
{
    if k == 0 {
        assert(values.take(0) =~= Seq::<ValueView>::empty());
    } else {
        let j = (k - 1) as nat;
        let chunks = value_chunks(values);
        let end = start + concat_first(chunks, values.len()).len();
        lemma_values_steps(bytes, start, codes, values, j);
        lemma_concat_chunk(chunks, j, values.len());
        let pos = start + concat_first(chunks, j).len();
        let value = values[j as int];
        let encoded = spec_encode_value(value);
        assert(bytes.subrange(pos, pos + encoded.len()) =~= bytes.subrange(start, end).subrange(
            pos - start,
            pos - start + encoded.len(),
        ));
        lemma_value_round_trip(bytes, pos, value);
        assert(values.take(j as int).push(value) =~= values.take(k as int));
    }
}

/// Round trip: a record that can be encoded decodes to the values it was
/// made of, each with its storage class, whatever mix of nulls, integers of
/// any width, floating-point values, blobs and texts they are.
pub proof fn lemma_record_round_trip(values: Seq<ValueView>)
    requires
        record_encodable(values),
    ensures
        spec_decode_record(spec_encode_record(values)) == Ok::<Seq<ValueView>, FormatError>(
            values,
        ),
{
    let m = values.len();
    let chunks = type_chunks(values);
    let codes = Seq::new(m, |i: int| spec_serial_type(values[i]));
    let types = concat_first(chunks, m);
    let data = concat_first(value_chunks(values), m);
    let header = header_len(types.len());
    let bytes = spec_encode_record(values);
    let first = spec_write_varint(header as u64);
    lemma_read_written_varint(Seq::empty(), header as u64, types + data);
    assert(bytes =~= Seq::<u8>::empty() + first + (types + data));
    let n = varint_len(header);
    assert(bytes.subrange(n as int, header as int) =~= types);
    lemma_header_steps(bytes, n as int, header as int, codes, chunks, m);
    assert(codes.take(m as int) =~= codes);
    assert(all_serial_types_valid(codes));
    assert(bytes.subrange(header as int, header as int + data.len()) =~= data);
    lemma_values_steps(bytes, header as int, codes, values, m);
    assert(values.take(m as int) =~= values);
}

/// Appends to `out` the `width` low bytes of `u`, most significant first.
fn push_be_bytes(out: &mut Vec<u8>, u: u64, width: usize)
    ensures
        final(out)@ == old(out)@ + be_bytes(u as nat, width as nat),
    decreases width,
{
    if width > 0 {
        push_be_bytes(out, u / 256, width - 1);
        out.push((u % 256) as u8);
    }
}

/// Appends `bytes` to `out`.
fn push_all(out: &mut Vec<u8>, bytes: &Vec<u8>)
    ensures
        final(out)@ == old(out)@ + bytes@,
{
    let mut i: usize = 0;
    while i < bytes.len()
        invariant
            i <= bytes@.len(),
            out@ == old(out)@ + bytes@.take(i as int),
        decreases bytes@.len() - i,
    {
        out.push(bytes[i]);
        i = i + 1;
    }
}

/// The serial type under which `value` is stored, or `None` where it cannot be stored.
pub fn serial_type(value: &Value) -> (r: Option<u64>)
    ensures
        r is Some <==> value_encodable(value@),
        r matches Some(code) ==> code == spec_serial_type(value@) && serial_type_valid(code),
{
    match value {
        Value::Null => Some(0),
        Value::Integer(v) => {
            let v = *v;
            if v == 0 {
                Some(8)
            } else if v == 1 {
                Some(9)
            } else if -0x80 <= v && v < 0x80 {
                Some(1)
            } else if -0x8000 <= v && v < 0x8000 {
                Some(2)
            } else if -0x80_0000 <= v && v < 0x80_0000 {
                Some(3)
            } else if -0x8000_0000 <= v && v < 0x8000_0000 {
                Some(4)
            } else if -0x8000_0000_0000 <= v && v < 0x8000_0000_0000 {
                Some(5)
            } else {
                Some(6)
            }
        },
        Value::Real(_) => Some(7),
        Value::Blob(b) => {
            if b.len() as u64 > MAX_LENGTH {
                None
            } else {
                Some(12 + 2 * (b.len() as u64))
            }
        },
        Value::Text(t) => {
            if t.len() as u64 > MAX_LENGTH {
                None
            } else {
                Some(13 + 2 * (t.len() as u64))
            }
        },
    }
}

/// Appends to `out` the bytes that `value` takes in the value area.
fn push_value(out: &mut Vec<u8>, value: &Value)
    ensures
        final(out)@ == old(out)@ + spec_encode_value(value@),
{
    match value {
        Value::Null => {
        },
        Value::Integer(v) => {
            let v = *v;
            if v == 0 || v == 1 {
            } else if -0x80 <= v && v < 0x80 {
                let u: u64 = if v < 0 {
                    (v + 0x100) as u64
                } else {
                    v as u64
                };
                push_be_bytes(out, u, 1);
            } else if -0x8000 <= v && v < 0x8000 {
                let u: u64 = if v < 0 {
                    (v + 0x1_0000) as u64
                } else {
                    v as u64
                };
                push_be_bytes(out, u, 2);
            } else if -0x80_0000 <= v && v < 0x80_0000 {
                let u: u64 = if v < 0 {
                    (v + 0x100_0000) as u64
                } else {
                    v as u64
                };
                push_be_bytes(out, u, 3);
            } else if -0x8000_0000 <= v && v < 0x8000_0000 {
                let u: u64 = if v < 0 {
                    (v + 0x1_0000_0000) as u64
                } else {
                    v as u64
                };
                push_be_bytes(out, u, 4);
            } else if -0x8000_0000_0000 <= v && v < 0x8000_0000_0000 {
                let u: u64 = if v < 0 {
                    (v + 0x1_0000_0000_0000) as u64
                } else {
                    v as u64
                };
                push_be_bytes(out, u, 6);
            } else {
                let u: u64 = if v < 0 {
                    (v - i64::MIN) as u64 + 0x8000_0000_0000_0000
                } else {
                    v as u64
                };
                push_be_bytes(out, u, 8);
            }
        },
        Value::Real(bits) => {
            push_be_bytes(out, *bits, 8);
        },
        Value::Blob(b) => {
            push_all(out, b);
        },
        Value::Text(t) => {
            push_all(out, t);
        },
    }
}

/// Computes the length of a header whose serial types take `body` bytes.
fn header_length(body: u64) -> (r: u64)
    requires
        body <= MAX_HEADER_BODY,
    ensures
        r == header_len(body as nat),
{
    if body + 1 < 0x80 {
        body + 1
    } else if body + 2 < 0x4000 {
        body + 2
    } else if body + 3 < 0x20_0000 {
        body + 3
    } else if body + 4 < 0x1000_0000 {
        body + 4
    } else if body + 5 < 0x8_0000_0000 {
        body + 5
    } else if body + 6 < 0x400_0000_0000 {
        body + 6
    } else if body + 7 < 0x2_0000_0000_0000 {
        body + 7
    } else if body + 8 < 0x100_0000_0000_0000 {
        body + 8
    } else {
        body + 9
    }
}

/// Encodes `values` as a record, each integer in the narrowest form that
/// holds it. Returns `None` where a blob or a text, or the header, is too
/// long for the lengths that the format can state.
pub fn encode_record(values: &Vec<Value>) -> (r: Option<Vec<u8>>)
    ensures
        r is Some <==> record_encodable(values_view(values@)),
        r matches Some(bytes) ==> bytes@ == spec_encode_record(values_view(values@)),
{
    let ghost views = values_view(values@);
    let mut types: Vec<u8> = Vec::new();
    let mut i: usize = 0;
    while i < values.len()
        invariant
            i <= values@.len(),
            views == values_view(values@),
            types@ == concat_first(type_chunks(views), i as nat),
            forall|j: int| 0 <= j < i ==> value_encodable(#[trigger] views[j]),
        decreases values@.len() - i,
    {
        assert(views[i as int] == values@[i as int]@);
        match serial_type(&values[i]) {
            None => {
                return None;
            },
            Some(code) => {
                let encoded = write_varint(code);
                push_all(&mut types, &encoded);
            },
        }
        i = i + 1;
    }
    if types.len() as u64 > MAX_HEADER_BODY {
        return None;
    }
    let mut out = write_varint(header_length(types.len() as u64));
    push_all(&mut out, &types);
    let ghost head = out@;
    let mut k: usize = 0;
    while k < values.len()
        invariant
            k <= values@.len(),
            views == values_view(values@),
            out@ == head + concat_first(value_chunks(views), k as nat),
        decreases values@.len() - k,
    {
        push_value(&mut out, &values[k]);
        k = k + 1;
    }
    Some(out)
}

} // verus!
