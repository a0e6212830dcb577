//! Primitives of the wire format: variable-byte integers, two- and
//! four-byte big-endian integers, length-prefixed UTF-8 strings and binary
//! data, each with its specification and round-trip lemma.

use vstd::prelude::*;
use vstd::utf8::{decode_utf8, encode_utf8, valid_utf8};
use crate::decode_error::ReadError;
use crate::encode_error::EncodeError;

verus! {

/// Largest value a variable-byte integer can carry (four 7-bit groups).
pub const VBI_MAX: u64 = 268435455;

/// Largest multiplier the decoder accepts before the fourth byte (128^3).
pub const VBI_MAX_MULTIPLIER: u64 = 2097152;

/// MQTT's 1-4 byte little-endian base-128 encoding of `n`: seven value bits
/// per byte, the high bit set while more bytes follow.
pub open spec fn spec_vbi_encode(n: int) -> Seq<u8>
    decreases n,
{
    if n < 128 {
        seq![n as u8]
    } else {
        seq![(n % 128 + 128) as u8] + spec_vbi_encode(n / 128)
    }
}

/// One step of variable-byte-integer parsing: `multiplier` scales the next
/// 7-bit group, `acc` holds the groups already read.
pub open spec fn spec_parse_vbi_rec(bytes: Seq<u8>, pos: int, multiplier: int, acc: int) -> Result<(u64, int), ReadError>
    decreases bytes.len() - pos,
{
    if pos < 0 || pos >= bytes.len() {
        Err(ReadError::NotEnoughData { position: pos as u64, length: bytes.len() as u64, requested: 1 })
    } else {
        let b = bytes[pos];
        let acc2 = acc + (b as int % 128) * multiplier;
        if multiplier > VBI_MAX_MULTIPLIER {
            Err(ReadError::ExceededMaxValue { current: multiplier as u64, max: VBI_MAX_MULTIPLIER })
        } else if b < 128 {
            Ok((acc2 as u64, pos + 1))
        } else {
            spec_parse_vbi_rec(bytes, pos + 1, multiplier * 128, acc2)
        }
    }
}

/// Variable-byte integer read at `pos`: the value and the position after it.
pub open spec fn spec_parse_vbi(bytes: Seq<u8>, pos: int) -> Result<(u64, int), ReadError> {
    spec_parse_vbi_rec(bytes, pos, 1, 0)
}

/// Two-byte big-endian encoding of `n`.
pub open spec fn spec_u16_be(n: u16) -> Seq<u8> {
    seq![(n / 256) as u8, (n % 256) as u8]
}

/// One byte read at `pos`.
pub open spec fn spec_parse_u8(bytes: Seq<u8>, pos: int) -> Result<(u8, int), ReadError> {
    if pos < 0 || pos >= bytes.len() {
        Err(ReadError::NotEnoughData { position: pos as u64, length: bytes.len() as u64, requested: 1 })
    } else {
        Ok((bytes[pos], pos + 1))
    }
}

/// Two-byte big-endian integer read at `pos`.
pub open spec fn spec_parse_u16_be(bytes: Seq<u8>, pos: int) -> Result<(u16, int), ReadError> {
    if pos < 0 || pos + 2 > bytes.len() {
        Err(ReadError::NotEnoughData { position: pos as u64, length: bytes.len() as u64, requested: 2 })
    } else {
        Ok(((bytes[pos] as u16 * 256 + bytes[pos + 1] as u16) as u16, pos + 2))
    }
}

/// Four-byte big-endian integer read at `pos`.
pub open spec fn spec_parse_u32_be(bytes: Seq<u8>, pos: int) -> Result<(u32, int), ReadError> {
    if pos < 0 || pos + 4 > bytes.len() {
        Err(ReadError::NotEnoughData { position: pos as u64, length: bytes.len() as u64, requested: 4 })
    } else {
        Ok((
            (bytes[pos] as u32 * 0x1000000 + bytes[pos + 1] as u32 * 0x10000 + bytes[pos + 2] as u32 * 0x100
                + bytes[pos + 3] as u32) as u32,
            pos + 4,
        ))
    }
}

/// UTF-8 string field: two-byte big-endian byte count, then the bytes,
/// refused when the byte count does not fit the prefix.
pub open spec fn spec_encode_utf8_string(s: Seq<char>) -> Result<Seq<u8>, EncodeError> {
    let b = encode_utf8(s);
    if b.len() > u16::MAX {
        Err(EncodeError::ExceededMaxLength)
    } else {
        Ok(spec_u16_be(b.len() as u16) + b)
    }
}

/// Binary-data field: identical framing, raw bytes.
pub open spec fn spec_encode_binary(b: Seq<u8>) -> Result<Seq<u8>, EncodeError> {
    if b.len() > u16::MAX {
        Err(EncodeError::ExceededMaxLength)
    } else {
        Ok(spec_u16_be(b.len() as u16) + b)
    }
}

/// UTF-8 string field read at `pos`: its character sequence and the position
/// after it; the bytes must be valid UTF-8.
pub open spec fn spec_parse_utf8_string(bytes: Seq<u8>, pos: int) -> Result<(Seq<char>, int), ReadError> {
    match spec_parse_u16_be(bytes, pos) {
        Err(e) => Err(e),
        Ok((n, p)) => {
            if p + n > bytes.len() {
                Err(ReadError::NotEnoughData { position: p as u64, length: bytes.len() as u64, requested: n as u64 })
            } else {
                let region = bytes.subrange(p, p + n);
                if valid_utf8(region) {
                    Ok((decode_utf8(region), p + n))
                } else {
                    Err(ReadError::InvalidData)
                }
            }
        },
    }
}

/// Binary-data field read at `pos`.
pub open spec fn spec_parse_binary(bytes: Seq<u8>, pos: int) -> Result<(Seq<u8>, int), ReadError> {
    match spec_parse_u16_be(bytes, pos) {
        Err(e) => Err(e),
        Ok((n, p)) => {
            if p + n > bytes.len() {
                Err(ReadError::NotEnoughData { position: p as u64, length: bytes.len() as u64, requested: n as u64 })
            } else {
                Ok((bytes.subrange(p, p + n), p + n))
            }
        },
    }
}

pub fn read_u8(buffer: &Vec<u8>, pos: usize) -> (r: Result<(u8, usize), ReadError>)
    ensures
        match r {
            Ok(v) => spec_parse_u8(buffer@, pos as int) == Ok::<(u8, int), ReadError>((v.0, v.1 as int))
                && v.1 <= buffer@.len(),
            Err(e) => spec_parse_u8(buffer@, pos as int) == Err::<(u8, int), ReadError>(e),
        },
{
    if pos < buffer.len() {
        Ok((buffer[pos], pos + 1))
    } else {
        Err(ReadError::NotEnoughData { position: pos as u64, length: buffer.len() as u64, requested: 1 })
    }
}

pub fn read_u16_be(buffer: &Vec<u8>, pos: usize) -> (r: Result<(u16, usize), ReadError>)
    ensures
        match r {
            Ok(v) => spec_parse_u16_be(buffer@, pos as int) == Ok::<(u16, int), ReadError>((v.0, v.1 as int))
                && v.1 <= buffer@.len(),
            Err(e) => spec_parse_u16_be(buffer@, pos as int) == Err::<(u16, int), ReadError>(e),
        },
{
    if buffer.len() >= 2 && pos <= buffer.len() - 2 {
        let hi = buffer[pos];
        let lo = buffer[pos + 1];
        Ok((hi as u16 * 256 + lo as u16, pos + 2))
    } else {
        Err(ReadError::NotEnoughData { position: pos as u64, length: buffer.len() as u64, requested: 2 })
    }
}

pub fn read_u32_be(buffer: &Vec<u8>, pos: usize) -> (r: Result<(u32, usize), ReadError>)
    ensures
        match r {
            Ok(v) => spec_parse_u32_be(buffer@, pos as int) == Ok::<(u32, int), ReadError>((v.0, v.1 as int))
                && v.1 <= buffer@.len(),
            Err(e) => spec_parse_u32_be(buffer@, pos as int) == Err::<(u32, int), ReadError>(e),
        },
{
    if buffer.len() >= 4 && pos <= buffer.len() - 4 {
        let b0 = buffer[pos];
        let b1 = buffer[pos + 1];
        let b2 = buffer[pos + 2];
        let b3 = buffer[pos + 3];
        Ok((b0 as u32 * 0x1000000 + b1 as u32 * 0x10000 + b2 as u32 * 0x100 + b3 as u32, pos + 4))
    } else {
        Err(ReadError::NotEnoughData { position: pos as u64, length: buffer.len() as u64, requested: 4 })
    }
}

/// Decode a variable-byte integer from `buffer` at `pos`; fails once the
/// multiplier would pass 128^3, so no more than four bytes are accepted.
pub fn decode_variable_byte_integer(buffer: &Vec<u8>, pos: usize) -> (r: Result<(u64, usize), ReadError>)
    ensures
        match r {
            Ok(v) => spec_parse_vbi(buffer@, pos as int) == Ok::<(u64, int), ReadError>((v.0, v.1 as int))
                && v.0 <= VBI_MAX && pos < v.1 <= buffer@.len(),
            Err(e) => spec_parse_vbi(buffer@, pos as int) == Err::<(u64, int), ReadError>(e),
        },
{
    let mut multiplier: u64 = 1;
    let mut acc: u64 = 0;
    let mut i: usize = pos;
    loop
        invariant
            pos <= i,
            1 <= multiplier <= 268435456,
            multiplier == 1 || multiplier == 128 || multiplier == 16384 || multiplier == 2097152
                || multiplier == 268435456,
            acc < multiplier,
            spec_parse_vbi(buffer@, pos as int) == spec_parse_vbi_rec(buffer@, i as int, multiplier as int, acc as int),
        decreases buffer@.len() - i,
    {
        if i >= buffer.len() {
            return Err(ReadError::NotEnoughData { position: i as u64, length: buffer.len() as u64, requested: 1 });
        }
        let b = buffer[i];
        proof {
            assert((b % 128) as int * (multiplier as int) <= 127 * (multiplier as int)) by (nonlinear_arith)
                requires
                    (b % 128) as int <= 127,
                    multiplier as int >= 0,
            ;
        }
        let acc2: u64 = acc + (b % 128) as u64 * multiplier;
        if multiplier > VBI_MAX_MULTIPLIER {
            return Err(ReadError::ExceededMaxValue { current: multiplier, max: VBI_MAX_MULTIPLIER });
        }
        if b < 128 {
            return Ok((acc2, i + 1));
        }
        multiplier = multiplier * 128;
        acc = acc2;
        i = i + 1;
    }
}

/// Append the variable-byte encoding of `value` to `buffer`.
fn encode_vbi_into(value: u64, buffer: &mut Vec<u8>)
    ensures
        final(buffer)@ == old(buffer)@ + spec_vbi_encode(value as int),
    decreases value,
{
    if value < 128 {
        buffer.push(value as u8);
    } else {
        buffer.push((value % 128 + 128) as u8);
        encode_vbi_into(value / 128, buffer);
    }
}

/// Append the variable-byte encoding of `value`, refusing values that do not
/// fit in four bytes; on failure the buffer is unchanged.
pub fn encode_variable_byte_integer(value: u64, buffer: &mut Vec<u8>) -> (r: Result<(), EncodeError>)
    ensures
        match r {
            Ok(()) => value <= VBI_MAX && final(buffer)@ == old(buffer)@ + spec_vbi_encode(value as int),
            Err(e) => value > VBI_MAX && e == EncodeError::ExceededMaxLength && final(buffer)@ == old(buffer)@,
        },
{
    if value > VBI_MAX {
        return Err(EncodeError::ExceededMaxLength);
    }
    encode_vbi_into(value, buffer);
    Ok(())
}

/// Copy `buffer[start..end]` into a fresh vector.
pub fn copy_range(buffer: &Vec<u8>, start: usize, end: usize) -> (r: Vec<u8>)
    requires
        start <= end <= buffer@.len(),
    ensures
        r@ == buffer@.subrange(start as int, end as int),
{
    let mut out: Vec<u8> = Vec::new();
    let mut i: usize = start;
    while i < end
        invariant
            start <= i <= end <= buffer@.len(),
            out@ == buffer@.subrange(start as int, i as int),
        decreases end - i,
    {
        out.push(buffer[i]);
        assert(out@ =~= buffer@.subrange(start as int, i + 1 as int));
        i = i + 1;
    }
    out
}

/// Append `src` to `dst`.
pub fn append_bytes(dst: &mut Vec<u8>, src: &Vec<u8>)
    ensures
        final(dst)@ == old(dst)@ + src@,
{
    let mut i: usize = 0;
    while i < src.len()
        invariant
            i <= src@.len(),
            dst@ == old(dst)@ + src@.subrange(0, i as int),
        decreases src@.len() - i,
    {
        dst.push(src[i]);
        assert(dst@ =~= old(dst)@ + src@.subrange(0, i + 1 as int));
        i = i + 1;
    }
    assert(dst@ =~= old(dst)@ + src@);
}

/// Relies on `String::from_utf8`: it succeeds exactly on valid UTF-8 input,
/// and the returned string holds exactly the input bytes.
#[verifier::external_body]
fn string_from_utf8(bytes: Vec<u8>) -> (r: Option<String>)
    ensures
        r is Some <==> valid_utf8(bytes@),
        r matches Some(s) ==> encode_utf8(s@) == bytes@,
{
    match String::from_utf8(bytes) {
        Ok(s) => Some(s),
        Err(_) => None,
    }
}

/// Read a UTF-8 string field (two-byte length prefix, then that many bytes,
/// validated as UTF-8) from `buffer` at `pos`.
pub fn read_utf8_string(buffer: &Vec<u8>, pos: usize) -> (r: Result<(String, usize), ReadError>)
    ensures
        match r {
            Ok(v) => spec_parse_utf8_string(buffer@, pos as int) matches Ok(s) && s.0 == v.0@ && s.1 == v.1 as int
                && v.1 <= buffer@.len(),
            Err(e) => spec_parse_utf8_string(buffer@, pos as int) == Err::<(Seq<char>, int), ReadError>(e),
        },
{
    let (n, p) = match read_u16_be(buffer, pos) {
        Ok(v) => v,
        Err(e) => {
            return Err(e);
        },
    };
    if n as usize > buffer.len() - p {
        return Err(ReadError::NotEnoughData { position: p as u64, length: buffer.len() as u64, requested: n as u64 });
    }
    let region = copy_range(buffer, p, p + n as usize);
    match string_from_utf8(region) {
        Some(s) => {
            proof {
                vstd::utf8::encode_utf8_decode_utf8(s@);
            }
            Ok((s, p + n as usize))
        },
        None => Err(ReadError::InvalidData),
    }
}

/// Read a binary-data field (two-byte length prefix, then raw bytes) from
/// `buffer` at `pos`.
pub fn read_binary_data(buffer: &Vec<u8>, pos: usize) -> (r: Result<(Vec<u8>, usize), ReadError>)
    ensures
        match r {
            Ok(v) => spec_parse_binary(buffer@, pos as int) matches Ok(s) && s.0 == v.0@ && s.1 == v.1 as int
                && v.1 <= buffer@.len(),
            Err(e) => spec_parse_binary(buffer@, pos as int) == Err::<(Seq<u8>, int), ReadError>(e),
        },
{
    let (n, p) = match read_u16_be(buffer, pos) {
        Ok(v) => v,
        Err(e) => {
            return Err(e);
        },
    };
    if n as usize > buffer.len() - p {
        return Err(ReadError::NotEnoughData { position: p as u64, length: buffer.len() as u64, requested: n as u64 });
    }
    Ok((copy_range(buffer, p, p + n as usize), p + n as usize))
}

/// Append a UTF-8 string field to `buffer`; on failure the buffer is
/// unchanged.
pub fn write_utf8_string(s: &String, buffer: &mut Vec<u8>) -> (r: Result<(), EncodeError>)
    ensures
        match r {
            Ok(()) => spec_encode_utf8_string(s@) matches Ok(b) && final(buffer)@ == old(buffer)@ + b,
            Err(e) => spec_encode_utf8_string(s@) == Err::<Seq<u8>, EncodeError>(e) && final(buffer)@ == old(buffer)@,
        },
{
    let bytes = s.as_str().as_bytes_vec();
    if bytes.len() > 65535 {
        return Err(EncodeError::ExceededMaxLength);
    }
    let n: u16 = bytes.len() as u16;
    buffer.push((n / 256) as u8);
    buffer.push((n % 256) as u8);
    append_bytes(buffer, &bytes);
    proof {
        assert(buffer@ =~= old(buffer)@ + (spec_u16_be(n) + encode_utf8(s@)));
    }
    Ok(())
}

/// Append a binary-data field to `buffer`; on failure the buffer is
/// unchanged.
pub fn write_binary_data(data: &Vec<u8>, buffer: &mut Vec<u8>) -> (r: Result<(), EncodeError>)
    ensures
        match r {
            Ok(()) => spec_encode_binary(data@) matches Ok(b) && final(buffer)@ == old(buffer)@ + b,
            Err(e) => spec_encode_binary(data@) == Err::<Seq<u8>, EncodeError>(e) && final(buffer)@ == old(buffer)@,
        },
{
    if data.len() > 65535 {
        return Err(EncodeError::ExceededMaxLength);
    }
    let n: u16 = data.len() as u16;
    buffer.push((n / 256) as u8);
    buffer.push((n % 256) as u8);
    append_bytes(buffer, data);
    proof {
        assert(buffer@ =~= old(buffer)@ + (spec_u16_be(n) + data@));
    }
    Ok(())
}

/// Append a two-byte big-endian integer to `buffer`.
pub fn write_u16_be(n: u16, buffer: &mut Vec<u8>)
    ensures
        final(buffer)@ == old(buffer)@ + spec_u16_be(n),
{
    buffer.push((n / 256) as u8);
    buffer.push((n % 256) as u8);
    proof {
        assert(buffer@ =~= old(buffer)@ + spec_u16_be(n));
    }
}

/// Length of the variable-byte encoding: one byte per 7-bit group.
pub proof fn lemma_vbi_encode_len(n: int)
    requires
        0 <= n <= VBI_MAX,
    ensures
        spec_vbi_encode(n).len() == if n < 128 {
            1int
        } else if n < 16384 {
            2int
        } else if n < 2097152 {
            3int
        } else {
            4int
        },
    decreases n,
{
    if n >= 128 {
        lemma_vbi_encode_len(n / 128);
    }
}

/// Parsing an encoding laid down at `pos` inside `bytes` yields the encoded
/// value and stops right after it, whatever the accumulator state, as long
/// as the value fits the remaining byte budget.
proof fn lemma_parse_vbi_rec_of_encoding(bytes: Seq<u8>, pos: int, multiplier: int, acc: int, n: int)
    requires
        0 <= n,
        multiplier == 1 || multiplier == 128 || multiplier == 16384 || multiplier == 2097152,
        n * multiplier <= VBI_MAX,
        0 <= acc < multiplier,
        0 <= pos,
        pos + spec_vbi_encode(n).len() <= bytes.len(),
        bytes.subrange(pos, pos + spec_vbi_encode(n).len()) == spec_vbi_encode(n),
    ensures
        spec_parse_vbi_rec(bytes, pos, multiplier, acc) == Ok::<(u64, int), ReadError>((
            (acc + n * multiplier) as u64,
            pos + spec_vbi_encode(n).len(),
        )),
    decreases n,
{
    let enc = spec_vbi_encode(n);
    assert(bytes[pos] == enc[0]);
    if n < 128 {
        assert(enc == seq![n as u8]);
        assert(bytes[pos] == n as u8);
        assert(multiplier <= VBI_MAX_MULTIPLIER);
    } else {
        let rest = spec_vbi_encode(n / 128);
        assert(enc == seq![(n % 128 + 128) as u8] + rest);
        assert(bytes[pos] == (n % 128 + 128) as u8);
        assert(bytes[pos] as int % 128 == n % 128);
        assert(bytes[pos] >= 128);
        assert(n * multiplier <= VBI_MAX && n >= 128 ==> multiplier < 16384 * 128) by (nonlinear_arith);
        assert(multiplier == 1 || multiplier == 128 || multiplier == 16384);
        assert(multiplier <= VBI_MAX_MULTIPLIER);
        let acc2 = acc + (n % 128) * multiplier;
        assert(bytes.subrange(pos + 1, pos + 1 + rest.len()) =~= rest) by {
            assert(forall|i: int|
                0 <= i < rest.len() ==> #[trigger] bytes.subrange(pos + 1, pos + 1 + rest.len())[i] == enc[i + 1]);
        }
        assert((n / 128) * (multiplier * 128) <= VBI_MAX) by (nonlinear_arith)
            requires
                n * multiplier <= VBI_MAX,
                n >= 128,
                multiplier >= 1,
        ;
        assert(acc2 < multiplier * 128) by (nonlinear_arith)
            requires
                acc < multiplier,
                acc2 == acc + (n % 128) * multiplier,
                0 <= n,
                multiplier >= 1,
        ;
        lemma_parse_vbi_rec_of_encoding(bytes, pos + 1, multiplier * 128, acc2, n / 128);
        assert(acc2 + (n / 128) * (multiplier * 128) == acc + n * multiplier) by (nonlinear_arith)
            requires
                acc2 == acc + (n % 128) * multiplier,
                n >= 128,
        ;
    }
}

/// Round trip of the variable-byte integer at any position of any buffer.
pub proof fn lemma_parse_vbi_of_encoding(bytes: Seq<u8>, pos: int, n: int)
    requires
        0 <= n <= VBI_MAX,
        0 <= pos,
        pos + spec_vbi_encode(n).len() <= bytes.len(),
        bytes.subrange(pos, pos + spec_vbi_encode(n).len()) == spec_vbi_encode(n),
    ensures
        spec_parse_vbi(bytes, pos) == Ok::<(u64, int), ReadError>((n as u64, pos + spec_vbi_encode(n).len())),
{
    lemma_parse_vbi_rec_of_encoding(bytes, pos, 1, 0, n);
}

/// Round trip of a two-byte big-endian integer at any position.
pub proof fn lemma_parse_u16_of_encoding(bytes: Seq<u8>, pos: int, n: u16)
    requires
        0 <= pos,
        pos + 2 <= bytes.len(),
        bytes.subrange(pos, pos + 2) == spec_u16_be(n),
    ensures
        spec_parse_u16_be(bytes, pos) == Ok::<(u16, int), ReadError>((n, pos + 2)),
{
    assert(bytes[pos] == spec_u16_be(n)[0]);
    assert(bytes[pos + 1] == spec_u16_be(n)[1]);
}

/// Round trip of a UTF-8 string field at any position.
pub proof fn lemma_parse_utf8_of_encoding(bytes: Seq<u8>, pos: int, s: Seq<char>)
    requires
        0 <= pos,
        spec_encode_utf8_string(s) is Ok,
        pos + spec_encode_utf8_string(s)->Ok_0.len() <= bytes.len(),
        bytes.subrange(pos, pos + spec_encode_utf8_string(s)->Ok_0.len()) == spec_encode_utf8_string(s)->Ok_0,
    ensures
        spec_parse_utf8_string(bytes, pos) == Ok::<(Seq<char>, int), ReadError>((
            s,
            pos + spec_encode_utf8_string(s)->Ok_0.len(),
        )),
{
    let b = encode_utf8(s);
    let enc = spec_encode_utf8_string(s)->Ok_0;
    let n = b.len() as u16;
    assert(enc == spec_u16_be(n) + b);
    assert(bytes.subrange(pos, pos + 2) =~= spec_u16_be(n)) by {
        assert(forall|i: int| 0 <= i < 2 ==> #[trigger] bytes.subrange(pos, pos + 2)[i] == enc[i]);
    }
    lemma_parse_u16_of_encoding(bytes, pos, n);
    assert(bytes.subrange(pos + 2, pos + 2 + n as int) =~= b) by {
        assert(forall|i: int| 0 <= i < n as int ==> #[trigger] bytes.subrange(pos + 2, pos + 2 + n as int)[i] == enc[i + 2]);
    }
    vstd::utf8::encode_utf8_valid_utf8(s);
    vstd::utf8::encode_utf8_decode_utf8(s);
}

/// Round trip of a binary-data field at any position.
pub proof fn lemma_parse_binary_of_encoding(bytes: Seq<u8>, pos: int, data: Seq<u8>)
    requires
        0 <= pos,
        spec_encode_binary(data) is Ok,
        pos + spec_encode_binary(data)->Ok_0.len() <= bytes.len(),
        bytes.subrange(pos, pos + spec_encode_binary(data)->Ok_0.len()) == spec_encode_binary(data)->Ok_0,
    ensures
        spec_parse_binary(bytes, pos) == Ok::<(Seq<u8>, int), ReadError>((
            data,
            pos + spec_encode_binary(data)->Ok_0.len(),
        )),
{
    let enc = spec_encode_binary(data)->Ok_0;
    let n = data.len() as u16;
    assert(enc == spec_u16_be(n) + data);
    assert(bytes.subrange(pos, pos + 2) =~= spec_u16_be(n)) by {
        assert(forall|i: int| 0 <= i < 2 ==> #[trigger] bytes.subrange(pos, pos + 2)[i] == enc[i]);
    }
    lemma_parse_u16_of_encoding(bytes, pos, n);
    assert(bytes.subrange(pos + 2, pos + 2 + n as int) =~= data) by {
        assert(forall|i: int| 0 <= i < n as int ==> #[trigger] bytes.subrange(pos + 2, pos + 2 + n as int)[i] == enc[i + 2]);
    }
}

} // verus!
