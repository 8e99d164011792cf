//! The variable-length integer of the file format: big-endian, seven bits to
//! a byte with the high bit as continuation flag, at most nine bytes, the
//! ninth carrying eight bits.

use crate::errors::FormatError;
use vstd::prelude::*;

verus! {

/// `128` to the power `k`, for the group counts that occur.
pub open spec fn group_limit(k: nat) -> nat {
    if k == 0 {
        1
    } else if k == 1 {
        0x80
    } else if k == 2 {
        0x4000
    } else if k == 3 {
        0x20_0000
    } else if k == 4 {
        0x1000_0000
    } else if k == 5 {
        0x8_0000_0000
    } else if k == 6 {
        0x400_0000_0000
    } else if k == 7 {
        0x2_0000_0000_0000
    } else {
        0x100_0000_0000_0000
    }
}

/// Decoding from `start`, with `i` continuation bytes already read and `acc`
/// the value of their seven-bit groups.
pub open spec fn varint_from(bytes: Seq<u8>, start: int, i: nat, acc: nat) -> Result<
    (nat, nat),
    FormatError,
>
    decreases 9 - i,
{
    if i > 8 || start < 0 || start + i >= bytes.len() {
        Err(FormatError::TruncatedVarint)
    } else if i == 8 {
        Ok((acc * 256 + bytes[start + 8] as nat, 9))
    } else if bytes[start + i] < 0x80 {
        Ok((acc * 128 + bytes[start + i] as nat, i + 1))
    } else {
        varint_from(bytes, start, i + 1, acc * 128 + (bytes[start + i] - 0x80) as nat)
    }
}

/// The integer encoded at `start`, with the number of bytes it takes.
pub open spec fn spec_read_varint(bytes: Seq<u8>, start: int) -> Result<(nat, nat), FormatError> {
    varint_from(bytes, start, 0, 0)
}

/// The number of bytes in the encoding of `v`.
pub open spec fn varint_len(v: nat) -> nat {
    if v < 0x80 {
        1
    } else if v < 0x4000 {
        2
    } else if v < 0x20_0000 {
        3
    } else if v < 0x1000_0000 {
        4
    } else if v < 0x8_0000_0000 {
        5
    } else if v < 0x400_0000_0000 {
        6
    } else if v < 0x2_0000_0000_0000 {
        7
    } else if v < 0x100_0000_0000_0000 {
        8
    } else {
        9
    }
}

/// The low `k` base-128 digits of `w`, most significant first, each with the
/// continuation flag set.
pub open spec fn continuation_groups(w: nat, k: nat) -> Seq<u8>
    decreases k,
{
    if k == 0 {
        Seq::empty()
    } else {
        continuation_groups(w / 128, (k - 1) as nat).push((0x80 + w % 128) as u8)
    }
}

/// The encoding of `v`.
pub open spec fn spec_write_varint(v: u64) -> Seq<u8> {
    if v < 0x100_0000_0000_0000 {
        continuation_groups(v as nat / 128, (varint_len(v as nat) - 1) as nat).push((v % 128) as u8)
    } else {
        continuation_groups(v as nat / 256, 8).push((v % 256) as u8)
    }
}

/// `continuation_groups(w, k)` has `k` bytes, each with the continuation flag set.
pub proof fn lemma_continuation_groups(w: nat, k: nat)
    ensures
        continuation_groups(w, k).len() == k,
        forall|j: int| 0 <= j < k ==> #[trigger] continuation_groups(w, k)[j] >= 0x80,
    decreases k,
{
    if k > 0 {
        lemma_continuation_groups(w / 128, (k - 1) as nat);
    }
}

/// Where `k` continuation groups of `w` stand at `start`, decoding passes
/// over them and goes on with `w` as the value read so far.
proof fn lemma_read_groups(bytes: Seq<u8>, start: int, w: nat, k: nat)
    requires
        0 <= start,
        k <= 8,
        w < group_limit(k),
        start + k <= bytes.len(),
        bytes.subrange(start, start + k) == continuation_groups(w, k),
    ensures
        spec_read_varint(bytes, start) == varint_from(bytes, start, k, w),
    decreases k,
{
    if k > 0 {
        let j = (k - 1) as nat;
        lemma_continuation_groups(w / 128, j);
        assert(bytes.subrange(start, start + j) =~= continuation_groups(w / 128, j));
        lemma_read_groups(bytes, start, w / 128, j);
        assert(bytes[start + j] == bytes.subrange(start, start + k)[j as int]);
    }
}

/// Round trip, in any surroundings: where the encoding of `v` stands in a
/// buffer, decoding at its first byte gives `v` and the encoding's length.
pub proof fn lemma_read_written_varint(before: Seq<u8>, v: u64, after: Seq<u8>)
    ensures
        spec_read_varint(before + spec_write_varint(v) + after, before.len() as int) == Ok::<
            (nat, nat),
            FormatError,
        >((v as nat, varint_len(v as nat))),
        spec_write_varint(v).len() == varint_len(v as nat),
{
    let enc = spec_write_varint(v);
    let bytes = before + enc + after;
    let start = before.len() as int;
    let k: nat = if v < 0x100_0000_0000_0000 {
        (varint_len(v as nat) - 1) as nat
    } else {
        8
    };
    let w: nat = if v < 0x100_0000_0000_0000 {
        v as nat / 128
    } else {
        v as nat / 256
    };
    lemma_continuation_groups(w, k);
    assert(bytes.subrange(start, start + k) =~= continuation_groups(w, k));
    lemma_read_groups(bytes, start, w, k);
}

/// Round trip: decoding the encoding of `v` gives `v` and consumes all of
/// it. The encoding is the shortest that holds `v` at seven bits to a byte,
/// and has nine bytes where eight would not do.
pub proof fn lemma_varint_round_trip(v: u64)
    ensures
        spec_read_varint(spec_write_varint(v), 0) == Ok::<(nat, nat), FormatError>(
            (v as nat, spec_write_varint(v).len()),
        ),
        spec_write_varint(v).len() == varint_len(v as nat),
        1 <= varint_len(v as nat) <= 9,
        varint_len(v as nat) <= 8 ==> v < group_limit(varint_len(v as nat)),
        1 < varint_len(v as nat) ==> v >= group_limit((varint_len(v as nat) - 1) as nat),
{
    lemma_read_written_varint(Seq::empty(), v, Seq::empty());
}

/// A decoded integer fits in 64 bits and takes between one and nine bytes,
/// all of them inside the buffer.
pub proof fn lemma_varint_bounds(bytes: Seq<u8>, start: int)
    ensures
        spec_read_varint(bytes, start) matches Ok((v, n)) ==> v <= u64::MAX && 1 <= n <= 9 && 0
            <= start && start + n <= bytes.len(),
{
    lemma_varint_from_bounds(bytes, start, 0, 0);
}

/// The bounds of what decoding gives from any point on.
proof fn lemma_varint_from_bounds(bytes: Seq<u8>, start: int, i: nat, acc: nat)
    requires
        i <= 8,
        acc < group_limit(i),
    ensures
        varint_from(bytes, start, i, acc) matches Ok((v, n)) ==> v <= u64::MAX && i < n <= 9 && 0
            <= start && start + n <= bytes.len(),
    decreases 9 - i,
{
    if i > 8 || start < 0 || start + i >= bytes.len() {
    } else if i == 8 {
    } else if bytes[start + i] < 0x80 {
    } else {
        lemma_varint_from_bounds(bytes, start, i + 1, acc * 128 + (bytes[start + i] - 0x80) as nat);
    }
}

/// Reads the integer that starts at `cursor`. Returns its value and the
/// number of bytes it takes.
pub fn read_varint(bytes: &[u8], cursor: usize) -> (r: Result<(u64, usize), FormatError>)
    ensures
        match r {
            Ok((v, n)) => spec_read_varint(bytes@, cursor as int) == Ok::<(nat, nat), FormatError>(
                (v as nat, n as nat),
            ),
            Err(e) => spec_read_varint(bytes@, cursor as int) == Err::<(nat, nat), FormatError>(e),
        },
        r matches Ok((_, n)) ==> 1 <= n <= 9 && cursor + n <= bytes@.len(),
        r matches Err(e) ==> e == FormatError::TruncatedVarint,
{
    let len = bytes.len();
    if cursor >= len {
        return Err(FormatError::TruncatedVarint);
    }
    let avail: usize = len - cursor;
    let mut acc: u64 = 0;
    let mut i: usize = 0;
    while i < 8
        invariant
            i <= 8,
            cursor < len,
            len == bytes@.len(),
            avail == len - cursor,
            acc < group_limit(i as nat),
            spec_read_varint(bytes@, cursor as int) == varint_from(
                bytes@,
                cursor as int,
                i as nat,
                acc as nat,
            ),
        decreases 8 - i,
    {
        if i >= avail {
            return Err(FormatError::TruncatedVarint);
        }
        let b: u8 = bytes[cursor + i];
        if b < 0x80 {
            return Ok((acc * 128 + b as u64, i + 1));
        }
        acc = acc * 128 + (b - 0x80) as u64;
        i = i + 1;
    }
    if 8 >= avail {
        return Err(FormatError::TruncatedVarint);
    }
    let b: u8 = bytes[cursor + 8];
    Ok((acc * 256 + b as u64, 9))
}

/// Appends to `out` the low `k` base-128 digits of `w`, each with the
/// continuation flag set.
fn push_groups(out: &mut Vec<u8>, w: u64, k: usize)
    ensures
        final(out)@ == old(out)@ + continuation_groups(w as nat, k as nat),
    decreases k,
{
    if k > 0 {
        push_groups(out, w / 128, k - 1);
        out.push(0x80 + (w % 128) as u8);
    }
}

/// The number of bytes in the encoding of `v`.
pub fn encoded_len(v: u64) -> (n: usize)
    ensures
        n == varint_len(v as nat),
{
    if v < 0x80 {
        1
    } else if v < 0x4000 {
        2
    } else if v < 0x20_0000 {
        3
    } else if v < 0x1000_0000 {
        4
    } else if v < 0x8_0000_0000 {
        5
    } else if v < 0x400_0000_0000 {
        6
    } else if v < 0x2_0000_0000_0000 {
        7
    } else if v < 0x100_0000_0000_0000 {
        8
    } else {
        9
    }
}

/// Encodes `v` in as few bytes as the format allows.
pub fn write_varint(v: u64) -> (out: Vec<u8>)
    ensures
        out@ == spec_write_varint(v),
{
    let mut out: Vec<u8> = Vec::new();
    if v < 0x100_0000_0000_0000 {
        push_groups(&mut out, v / 128, encoded_len(v) - 1);
        out.push((v % 128) as u8);
    } else {
        push_groups(&mut out, v / 256, 8);
        out.push((v % 256) as u8);
    }
    out
}

} // verus!
