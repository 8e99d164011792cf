//! The record codec: a header of serial types, then the column values in one
//! contiguous area.

use crate::errors::FormatError;
use crate::storage::varint::{lemma_varint_bounds, read_varint, spec_read_varint};
use vstd::prelude::*;

verus! {

/// One column value. A floating-point value is held as the bit pattern of
/// its IEEE-754 double; text is held as the bytes that the record stores.
#[derive(Clone, Debug, PartialEq, Eq)]
pub enum Value {
    Null,
    Integer(i64),
    Real(u64),
    Blob(Vec<u8>),
    Text(Vec<u8>),
}

/// A column value as a mathematical value.
pub enum ValueView {
    Null,
    Integer(i64),
    Real(u64),
    Blob(Seq<u8>),
    Text(Seq<u8>),
}

impl View for Value {
    type V = ValueView;

    open spec fn view(&self) -> ValueView {
        match self {
            Value::Null => ValueView::Null,
            Value::Integer(v) => ValueView::Integer(*v),
            Value::Real(bits) => ValueView::Real(*bits),
            Value::Blob(b) => ValueView::Blob(b@),
            Value::Text(t) => ValueView::Text(t@),
        }
    }
}

/// The views of a row's values, in column order.
pub open spec fn values_view(values: Seq<Value>) -> Seq<ValueView> {
    Seq::new(values.len(), |i: int| values[i]@)
}

/// Serial types 10 and 11 are reserved; every other code is in use.
pub open spec fn serial_type_valid(code: u64) -> bool {
    code != 10 && code != 11
}

/// The number of bytes that a column of serial type `code` takes in the value area.
pub open spec fn serial_type_width(code: u64) -> nat {
    if code >= 12 {
        ((code - 12) / 2) as nat
    } else if code == 1 {
        1
    } else if code == 2 {
        2
    } else if code == 3 {
        3
    } else if code == 4 {
        4
    } else if code == 5 {
        6
    } else if code == 6 || code == 7 {
        8
    } else {
        0
    }
}

/// The big-endian unsigned integer in the `width` bytes at `at`.
pub open spec fn be_unsigned(bytes: Seq<u8>, at: int, width: nat) -> nat
    decreases width,
{
    if width == 0 {
        0
    } else {
        be_unsigned(bytes, at, (width - 1) as nat) * 256 + bytes[at + width - 1] as nat
    }
}

/// `256` to the power `width`, for the widths that integers are stored in.
pub open spec fn byte_limit(width: nat) -> int {
    if width == 0 {
        1
    } else if width == 1 {
        0x100
    } else if width == 2 {
        0x1_0000
    } else if width == 3 {
        0x100_0000
    } else if width == 4 {
        0x1_0000_0000
    } else if width == 5 {
        0x100_0000_0000
    } else if width == 6 {
        0x1_0000_0000_0000
    } else if width == 7 {
        0x100_0000_0000_0000
    } else {
        0x1_0000_0000_0000_0000
    }
}

/// The value that `u` stands for as a two's-complement integer of `width` bytes.
pub open spec fn twos_complement(u: nat, width: nat) -> int {
    if 2 * u >= byte_limit(width) {
        u - byte_limit(width)
    } else {
        u as int
    }
}

/// The big-endian two's-complement integer in the `width` bytes at `at`.
pub open spec fn be_signed(bytes: Seq<u8>, at: int, width: nat) -> int {
    twos_complement(be_unsigned(bytes, at, width), width)
}

/// The value of a column of serial type `code` whose bytes start at `at`.
pub open spec fn spec_decode_value(bytes: Seq<u8>, at: int, code: u64) -> ValueView {
    if code == 0 {
        ValueView::Null
    } else if code <= 6 {
        ValueView::Integer(be_signed(bytes, at, serial_type_width(code)) as i64)
    } else if code == 7 {
        ValueView::Real(be_unsigned(bytes, at, 8) as u64)
    } else if code == 8 {
        ValueView::Integer(0)
    } else if code == 9 {
        ValueView::Integer(1)
    } else if code % 2 == 0 {
        ValueView::Blob(bytes.subrange(at, at + serial_type_width(code)))
    } else {
        ValueView::Text(bytes.subrange(at, at + serial_type_width(code)))
    }
}

/// The serial types read from `pos` on, one integer each, while `pos` lies
/// before `end`; with them, the position where reading stopped. `acc` holds
/// the serial types read so far.
pub open spec fn header_codes_from(bytes: Seq<u8>, pos: int, end: int, acc: Seq<u64>) -> Result<
    (Seq<u64>, int),
    FormatError,
>
    decreases
        (if pos < end {
            end - pos
        } else {
            0
        }),
{
    if pos >= end {
        Ok((acc, pos))
    } else {
        match spec_read_varint(bytes, pos) {
            Err(e) => Err(e),
            Ok((code, n)) => {
                proof {
                    lemma_varint_bounds(bytes, pos);
                }
                header_codes_from(bytes, pos + n, end, acc.push(code as u64))
            },
        }
    }
}

/// The values of the columns `codes[i..]`, stored from `pos` on, behind `acc`.
pub open spec fn decode_values_from(
    bytes: Seq<u8>,
    pos: int,
    codes: Seq<u64>,
    i: nat,
    acc: Seq<ValueView>,
) -> Result<Seq<ValueView>, FormatError>
    decreases codes.len() - i,
{
    if i >= codes.len() {
        Ok(acc)
    } else if pos + serial_type_width(codes[i as int]) > bytes.len() {
        Err(FormatError::RecordTruncated)
    } else {
        decode_values_from(
            bytes,
            pos + serial_type_width(codes[i as int]),
            codes,
            i + 1,
            acc.push(spec_decode_value(bytes, pos, codes[i as int])),
        )
    }
}

pub open spec fn all_serial_types_valid(codes: Seq<u64>) -> bool {
    forall|i: int| 0 <= i < codes.len() ==> serial_type_valid(#[trigger] codes[i])
}

/// The record that `payload` holds.
///
/// The first integer is the header's length, itself included. Serial types
/// are read while the position lies inside the header; the value area starts
/// where that reading stops. A header that cannot be read gives the
/// integer's error, a reserved serial type `InvalidSerialType`, and a value
/// area shorter than the serial types declare `RecordTruncated`, in this
/// order of precedence.
pub open spec fn spec_decode_record(payload: Seq<u8>) -> Result<Seq<ValueView>, FormatError> {
    match spec_read_varint(payload, 0) {
        Err(e) => Err(e),
        Ok((header_len, n)) => match header_codes_from(
            payload,
            n as int,
            header_len as int,
            Seq::empty(),
        ) {
            Err(e) => Err(e),
            Ok((codes, start)) => {
                if !all_serial_types_valid(codes) {
                    Err(FormatError::InvalidSerialType)
                } else {
                    decode_values_from(payload, start, codes, 0, Seq::empty())
                }
            },
        },
    }
}

/// Reads the big-endian unsigned integer in the `width` bytes at `at`.
fn read_be_unsigned(bytes: &[u8], at: usize, width: usize) -> (r: u64)
    requires
        width <= 8,
        at + width <= bytes@.len(),
    ensures
        r == be_unsigned(bytes@, at as int, width as nat),
        r < byte_limit(width as nat),
{
    let len = bytes.len();
    let mut acc: u64 = 0;
    let mut i: usize = 0;
    while i < width
        invariant
            i <= width <= 8,
            len == bytes@.len(),
            at + width <= len,
            acc == be_unsigned(bytes@, at as int, i as nat),
            acc < byte_limit(i as nat),
        decreases width - i,
    {
        acc = acc * 256 + bytes[at + i] as u64;
        i = i + 1;
    }
    acc
}

/// Reads the big-endian two's-complement integer in the `width` bytes at `at`.
fn read_be_signed(bytes: &[u8], at: usize, width: usize) -> (r: i64)
    requires
        1 <= width <= 8,
        at + width <= bytes@.len(),
    ensures
        r == be_signed(bytes@, at as int, width as nat),
{
    let u = read_be_unsigned(bytes, at, width);
    if width == 8 {
        if u >= 0x8000_0000_0000_0000 {
            (u - 0x8000_0000_0000_0000) as i64 + i64::MIN
        } else {
            u as i64
        }
    } else {
        let full: u64 = if width == 1 {
            0x100
        } else if width == 2 {
            0x1_0000
        } else if width == 3 {
            0x100_0000
        } else if width == 4 {
            0x1_0000_0000
        } else if width == 5 {
            0x100_0000_0000
        } else if width == 6 {
            0x1_0000_0000_0000
        } else {
            0x100_0000_0000_0000
        };
        if u >= full / 2 {
            u as i64 - full as i64
        } else {
            u as i64
        }
    }
}

/// Copies `len` bytes from `at` on.
pub fn copy_bytes(bytes: &[u8], at: usize, len: usize) -> (out: Vec<u8>)
    requires
        at + len <= bytes@.len(),
    ensures
        out@ == bytes@.subrange(at as int, at + len),
{
    let total = bytes.len();
    let mut out: Vec<u8> = Vec::new();
    let mut i: usize = 0;
    while i < len
        invariant
            i <= len,
            total == bytes@.len(),
            at + len <= total,
            out@ == bytes@.subrange(at as int, at + i),
        decreases len - i,
    {
        out.push(bytes[at + i]);
        i = i + 1;
    }
    out
}

/// Reads `u` as a two's-complement integer of 64 bits.
pub fn u64_to_i64(u: u64) -> (r: i64)
    ensures
        r == twos_complement(u as nat, 8),
{
    if u >= 0x8000_0000_0000_0000 {
        (u - 0x8000_0000_0000_0000) as i64 + i64::MIN
    } else {
        u as i64
    }
}

/// Decodes the column of serial type `code` whose bytes start at `at`.
fn decode_value(bytes: &[u8], at: usize, code: u64) -> (r: Value)
    requires
        serial_type_valid(code),
        at + serial_type_width(code) <= bytes@.len(),
    ensures
        r@ == spec_decode_value(bytes@, at as int, code),
{
    let total = bytes.len();
    if code == 0 {
        Value::Null
    } else if code <= 6 {
        let width: usize = if code == 5 {
            6
        } else if code == 6 {
            8
        } else {
            code as usize
        };
        Value::Integer(read_be_signed(bytes, at, width))
    } else if code == 7 {
        Value::Real(read_be_unsigned(bytes, at, 8))
    } else if code == 8 {
        Value::Integer(0)
    } else if code == 9 {
        Value::Integer(1)
    } else {
        let len: usize = ((code - 12) / 2) as usize;
        let data = copy_bytes(bytes, at, len);
        if code % 2 == 0 {
            Value::Blob(data)
        } else {
            Value::Text(data)
        }
    }
}

/// Whether none of `codes` is a reserved serial type.
fn serial_types_valid(codes: &Vec<u64>) -> (r: bool)
    ensures
        r == all_serial_types_valid(codes@),
{
    let mut i: usize = 0;
    while i < codes.len()
        invariant
            i <= codes@.len(),
            forall|j: int| 0 <= j < i ==> serial_type_valid(#[trigger] codes@[j]),
        decreases codes@.len() - i,
    {
        if codes[i] == 10 || codes[i] == 11 {
            return false;
        }
        i = i + 1;
    }
    true
}

/// Decodes the record that `payload` holds: a payload whose overflow pages,
/// if it had any, have been put together.
pub fn decode_record(payload: &[u8]) -> (r: Result<Vec<Value>, FormatError>)
    ensures
        match r {
            Ok(values) => spec_decode_record(payload@) == Ok::<Seq<ValueView>, FormatError>(
                values_view(values@),
            ),
            Err(e) => spec_decode_record(payload@) == Err::<Seq<ValueView>, FormatError>(e),
        },
{
    let len = payload.len();
    let (header_len, n) = match read_varint(payload, 0) {
        Ok(pair) => pair,
        Err(e) => { return Err(e); },
    };
    proof {
        lemma_varint_bounds(payload@, 0);
    }
    let mut codes: Vec<u64> = Vec::new();
    let mut pos: usize = n;
    while (pos as u64) < header_len
        invariant
            pos <= len,
            len == payload@.len(),
            spec_read_varint(payload@, 0) == Ok::<(nat, nat), FormatError>(
                (header_len as nat, n as nat),
            ),
            header_codes_from(payload@, n as int, header_len as int, Seq::empty())
                == header_codes_from(payload@, pos as int, header_len as int, codes@),
        decreases len - pos,
    {
        proof {
            lemma_varint_bounds(payload@, pos as int);
        }
        match read_varint(payload, pos) {
            Ok((code, used)) => {
                codes.push(code);
                pos = pos + used;
            },
            Err(e) => { return Err(e); },
        }
    }
    if !serial_types_valid(&codes) {
        return Err(FormatError::InvalidSerialType);
    }
    let mut values: Vec<Value> = Vec::new();
    let mut i: usize = 0;
    proof {
        assert(values_view(values@) =~= Seq::<ValueView>::empty());
    }
    while i < codes.len()
        invariant
            i <= codes@.len(),
            pos <= len,
            len == payload@.len(),
            all_serial_types_valid(codes@),
            values@.len() == i,
            spec_decode_record(payload@) == decode_values_from(
                payload@,
                pos as int,
                codes@,
                i as nat,
                values_view(values@),
            ),
        decreases codes@.len() - i,
    {
        let code = codes[i];
        let width: u64 = if code >= 12 {
            (code - 12) / 2
        } else if code == 5 {
            6
        } else if code == 6 || code == 7 {
            8
        } else if code <= 4 {
            code
        } else {
            0
        };
        if width > (len - pos) as u64 {
            return Err(FormatError::RecordTruncated);
        }
        let value = decode_value(payload, pos, code);
        proof {
            assert(values_view(values@.push(value)) =~= values_view(values@).push(value@));
        }
        values.push(value);
        pos = pos + width as usize;
        i = i + 1;
    }
    Ok(values)
}

} // verus!
