use vstd::prelude::*;
use vstd::utf8::{decode_utf8, encode_utf8, encode_utf8_decode_utf8, encode_utf8_valid_utf8, valid_utf8};

verus! {

/// Why a primitive could not be decoded.
#[derive(Debug, Clone, Copy, PartialEq, Eq, Structural)]
pub enum DatatypeError {
    TooSmallBuffer,
    VarIntTooBig,
    StreamError,
    Utf8DecodeError,
}

/// A decoded value and the offset of the first byte after it.
pub struct DecodeResult<T> {
    pub value: T,
    pub offset: u32,
}

/// The most bytes that one VarInt may span.
pub const VARINT_MAX_BYTES: u64 = 5;

/// `128` to the power `n`: the weight of the `n`-th group of seven bits.
pub open spec fn pow128(n: nat) -> nat
    decreases n,
{
    if n == 0 {
        1
    } else {
        128 * pow128((n - 1) as nat)
    }
}

/// The minimal VarInt encoding of `v`: seven bits per byte, least
/// significant group first, the high bit set on every byte but the last.
pub open spec fn varint_bytes(v: nat) -> Seq<u8>
    decreases v,
{
    if v < 128 {
        seq![v as u8]
    } else {
        seq![(v % 128 + 128) as u8] + varint_bytes(v / 128)
    }
}

/// Decoding a VarInt whose first `count` bytes have been read, their
/// groups summing to `acc`, the next group weighing `scale`, with the
/// next byte at index `i` of `b`.
pub open spec fn varint_parse_from(b: Seq<u8>, i: int, count: nat, scale: nat, acc: nat) -> Result<
    (nat, int),
    DatatypeError,
>
    decreases b.len() - i,
{
    if i < 0 || i >= b.len() {
        Err(DatatypeError::TooSmallBuffer)
    } else {
        let sum = acc + (b[i] % 128) as nat * scale;
        if b[i] < 128 {
            Ok((sum, i + 1))
        } else if count + 1 >= VARINT_MAX_BYTES {
            Err(DatatypeError::VarIntTooBig)
        } else {
            varint_parse_from(b, i + 1, count + 1, scale * 128, sum)
        }
    }
}

/// Decoding a VarInt that starts at index `i` of `b`: its value and the
/// index after its last byte, or why it cannot be decoded.
pub open spec fn varint_parse(b: Seq<u8>, i: int) -> Result<(nat, int), DatatypeError> {
    varint_parse_from(b, i, 0, 1, 0)
}

/// The length-prefixed encoding of the text `s`: the VarInt of its UTF-8
/// byte length, then those bytes.
pub open spec fn string_bytes(s: Seq<char>) -> Seq<u8> {
    varint_bytes(encode_utf8(s).len() as nat) + encode_utf8(s)
}

/// Decoding a length-prefixed string that starts at index `i` of `b`.
pub open spec fn string_parse(b: Seq<u8>, i: int) -> Result<(Seq<char>, int), DatatypeError> {
    match varint_parse(b, i) {
        Err(e) => Err(e),
        Ok((len, next)) => {
            if next + len > b.len() {
                Err(DatatypeError::TooSmallBuffer)
            } else {
                let payload = b.subrange(next, next + len);
                if valid_utf8(payload) {
                    Ok((decode_utf8(payload), next + len))
                } else {
                    Err(DatatypeError::Utf8DecodeError)
                }
            }
        },
    }
}

/// A VarInt encoding found at index `i` of `b`, read with `count` bytes
/// already consumed, adds its value at weight `scale` and ends right after
/// its last byte.
proof fn lemma_parse_encoded(b: Seq<u8>, i: int, v: nat, count: nat, scale: nat, acc: nat)
    requires
        0 <= i,
        count < VARINT_MAX_BYTES,
        v < pow128((VARINT_MAX_BYTES - count) as nat),
        i + varint_bytes(v).len() <= b.len(),
        b.subrange(i, i + varint_bytes(v).len()) == varint_bytes(v),
    ensures
        varint_parse_from(b, i, count, scale, acc) == Ok::<(nat, int), DatatypeError>(
            (acc + v * scale, i + varint_bytes(v).len()),
        ),
    decreases v,
{
    let e = varint_bytes(v);
    assert(b[i] == b.subrange(i, i + e.len())[0]);
    if v >= 128 {
        let rest = varint_bytes(v / 128);
        assert(e == seq![(v % 128 + 128) as u8] + rest);
        assert(b.subrange(i + 1, i + 1 + rest.len()) =~= b.subrange(i, i + e.len()).subrange(
            1,
            e.len() as int,
        ));
        assert(e.subrange(1, e.len() as int) =~= rest);
        let m = (VARINT_MAX_BYTES - count - 1) as nat;
        if count + 1 >= VARINT_MAX_BYTES {
            reveal_with_fuel(pow128, 2);
        }
        assert(pow128((VARINT_MAX_BYTES - count) as nat) == 128 * pow128(m));
        assert(v / 128 < pow128(m));
        lemma_parse_encoded(b, i + 1, v / 128, count + 1, scale * 128, acc + (v % 128) * scale);
        assert(acc + (v % 128) * scale + (v / 128) * (scale * 128) == acc + v * scale)
            by (nonlinear_arith);
    }
}

/// A proper prefix of a VarInt encoding, found at index `i` of `b` and
/// running to its end, is not enough to decode.
proof fn lemma_parse_truncated(b: Seq<u8>, i: int, v: nat, count: nat, scale: nat, acc: nat)
    requires
        0 <= i <= b.len(),
        count < VARINT_MAX_BYTES,
        v < pow128((VARINT_MAX_BYTES - count) as nat),
        b.len() - i < varint_bytes(v).len(),
        b.subrange(i, b.len() as int) == varint_bytes(v).subrange(0, b.len() - i),
    ensures
        varint_parse_from(b, i, count, scale, acc) == Err::<(nat, int), DatatypeError>(
            DatatypeError::TooSmallBuffer,
        ),
    decreases v,
{
    let e = varint_bytes(v);
    if i < b.len() {
        assert(b[i] == b.subrange(i, b.len() as int)[0]);
        assert(v >= 128);
        let rest = varint_bytes(v / 128);
        assert(e == seq![(v % 128 + 128) as u8] + rest);
        assert forall|k: int| 0 <= k < b.len() - i - 1 implies b[i + 1 + k] == rest[k] by {
            assert(b[i + 1 + k] == b.subrange(i, b.len() as int)[1 + k]);
            assert(e[1 + k] == rest[k]);
        }
        assert(b.subrange(i + 1, b.len() as int) =~= rest.subrange(0, b.len() - i - 1));
        let m = (VARINT_MAX_BYTES - count - 1) as nat;
        if count + 1 >= VARINT_MAX_BYTES {
            reveal_with_fuel(pow128, 2);
        }
        assert(pow128((VARINT_MAX_BYTES - count) as nat) == 128 * pow128(m));
        lemma_parse_truncated(b, i + 1, v / 128, count + 1, scale * 128, acc + (v % 128) * scale);
    }
}

/// Decoding the encoding of any 32-bit value gives that value back and
/// consumes exactly the encoded bytes.
pub proof fn lemma_varint_round_trip(v: u64)
    requires
        v <= u32::MAX,
    ensures
        varint_parse(varint_bytes(v as nat), 0) == Ok::<(nat, int), DatatypeError>(
            (v as nat, varint_bytes(v as nat).len() as int),
        ),
{
    reveal_with_fuel(pow128, 6);
    let e = varint_bytes(v as nat);
    assert(e.subrange(0, e.len() as int) =~= e);
    lemma_parse_encoded(e, 0, v as nat, 0, 1, 0);
}

/// Five bytes in a row that all carry the continuation bit are an
/// over-long VarInt.
pub proof fn lemma_varint_too_long(b: Seq<u8>, i: int)
    requires
        0 <= i,
        i + VARINT_MAX_BYTES <= b.len(),
        forall|j: int| i <= j < i + VARINT_MAX_BYTES ==> b[j] >= 128,
    ensures
        varint_parse(b, i) == Err::<(nat, int), DatatypeError>(DatatypeError::VarIntTooBig),
{
    reveal_with_fuel(varint_parse_from, 6);
    assert(b[i] >= 128 && b[i + 1] >= 128 && b[i + 2] >= 128 && b[i + 3] >= 128 && b[i + 4] >= 128);
}

/// A buffer that holds only the first bytes of the encoding of a 32-bit
/// value is too small to decode.
pub proof fn lemma_varint_truncated(v: u64, n: int)
    requires
        v <= u32::MAX,
        0 <= n < varint_bytes(v as nat).len(),
    ensures
        varint_parse(varint_bytes(v as nat).subrange(0, n), 0) == Err::<(nat, int), DatatypeError>(
            DatatypeError::TooSmallBuffer,
        ),
{
    reveal_with_fuel(pow128, 6);
    let b = varint_bytes(v as nat).subrange(0, n);
    assert(b.subrange(0, n) =~= b);
    lemma_parse_truncated(b, 0, v as nat, 0, 1, 0);
}

/// Decoding the length-prefixed encoding of any text gives that text back
/// and consumes the whole encoding.
pub proof fn lemma_string_round_trip(s: Seq<char>)
    requires
        encode_utf8(s).len() <= u32::MAX,
    ensures
        string_parse(string_bytes(s), 0) == Ok::<(Seq<char>, int), DatatypeError>(
            (s, string_bytes(s).len() as int),
        ),
{
    reveal_with_fuel(pow128, 6);
    let u = encode_utf8(s);
    let p = varint_bytes(u.len() as nat);
    let b = string_bytes(s);
    assert(b.subrange(0, p.len() as int) =~= p);
    lemma_parse_encoded(b, 0, u.len() as nat, 0, 1, 0);
    assert(b.subrange(p.len() as int, (p.len() + u.len()) as int) =~= u);
    encode_utf8_valid_utf8(s);
    encode_utf8_decode_utf8(s);
}

/// A length prefix followed by bytes that are not well-formed UTF-8 is
/// rejected as such, never decoded to some other text.
pub proof fn lemma_string_invalid_utf8(payload: Seq<u8>)
    requires
        payload.len() <= u32::MAX,
        !valid_utf8(payload),
    ensures
        string_parse(varint_bytes(payload.len() as nat) + payload, 0) == Err::<
            (Seq<char>, int),
            DatatypeError,
        >(DatatypeError::Utf8DecodeError),
{
    reveal_with_fuel(pow128, 6);
    let p = varint_bytes(payload.len() as nat);
    let b = p + payload;
    assert(b.subrange(0, p.len() as int) =~= p);
    lemma_parse_encoded(b, 0, payload.len() as nat, 0, 1, 0);
    assert(b.subrange(p.len() as int, (p.len() + payload.len()) as int) =~= payload);
}

/// Relies on std::str::from_utf8: it accepts exactly the well-formed UTF-8
/// byte sequences, and the text it returns is the one those bytes encode.
#[verifier::external_body]
fn utf8_string(bytes: &[u8]) -> (r: Option<String>)
    ensures
        match r {
            Some(s) => valid_utf8(bytes@) && encode_utf8(s@) == bytes@,
            None => !valid_utf8(bytes@),
        },
{
    match std::str::from_utf8(bytes) {
        Ok(s) => Some(s.to_string()),
        Err(_) => None,
    }
}

/// A buffer read as VarInts.
pub struct VarInt<'a>(pub &'a Vec<u8>);

impl<'a> VarInt<'a> {
    pub fn encode(input: u64) -> (r: Result<Vec<u8>, DatatypeError>)
        ensures
            r matches Ok(bytes) && bytes@ == varint_bytes(input as nat),
    {
        let mut value: u64 = input;
        let mut output: Vec<u8> = Vec::new();
        while value >= 128
            invariant
                output@ + varint_bytes(value as nat) == varint_bytes(input as nat),
            decreases value,
        {
            let byte: u8 = (value % 128 + 128) as u8;
            proof {
                assert(varint_bytes(value as nat) == seq![byte] + varint_bytes((value / 128) as nat));
                assert(output@.push(byte) + varint_bytes((value / 128) as nat) =~= output@
                    + varint_bytes(value as nat));
            }
            output.push(byte);
            value = value / 128;
        }
        proof {
            assert(output@.push(value as u8) =~= output@ + varint_bytes(value as nat));
        }
        output.push(value as u8);
        Ok(output)
    }

    pub fn decode(&self, initial_offset: u32) -> (r: Result<DecodeResult<u64>, DatatypeError>)
        requires
            self.0@.len() <= u32::MAX,
        ensures
            match r {
                Ok(d) => varint_parse(self.0@, initial_offset as int) == Ok::<(nat, int), DatatypeError>(
                    (d.value as nat, d.offset as int),
                ) && d.value < pow128(5) && d.offset <= self.0@.len(),
                Err(e) => varint_parse(self.0@, initial_offset as int) == Err::<(nat, int), DatatypeError>(e),
            },
    {
        let ghost b = self.0@;
        let mut offset: u32 = initial_offset;
        let mut count: u64 = 0;
        let mut scale: u64 = 1;
        let mut result: u64 = 0;
        let max_length: u32 = self.0.len() as u32;
        loop
            invariant
                max_length == b.len(),
                b == self.0@,
                count < VARINT_MAX_BYTES,
                scale == pow128(count as nat),
                result < scale,
                varint_parse(b, initial_offset as int) == varint_parse_from(
                    b,
                    offset as int,
                    count as nat,
                    scale as nat,
                    result as nat,
                ),
            decreases max_length - offset,
        {
            if offset >= max_length {
                return Err(DatatypeError::TooSmallBuffer);
            }
            let current_byte: u8 = self.0[offset as usize];
            proof {
                reveal_with_fuel(pow128, 5);
                assert(scale <= 268435456);
                assert(result + (current_byte % 128) as u64 * scale < 128 * scale) by (nonlinear_arith)
                    requires
                        result < scale,
                        current_byte % 128 < 128,
                ;
            }
            offset = offset + 1;
            result = result + (current_byte % 128) as u64 * scale;
            if current_byte < 128 {
                return Ok(DecodeResult { value: result, offset });
            }
            count = count + 1;
            if count >= VARINT_MAX_BYTES {
                return Err(DatatypeError::VarIntTooBig);
            }
            scale = scale * 128;
        }
    }
}

/// A buffer read as length-prefixed strings.
pub struct StringBuffer<'a>(pub &'a Vec<u8>);

impl<'a> StringBuffer<'a> {
    pub fn encode(input: &str) -> (r: Result<Vec<u8>, DatatypeError>)
        ensures
            r matches Ok(bytes) && bytes@ == string_bytes(input@),
    {
        let array: &[u8] = input.as_bytes();
        let mut result: Vec<u8> = match VarInt::encode(array.len() as u64) {
            Ok(prefix) => prefix,
            Err(e) => return Err(e),
        };
        let ghost prefix = result@;
        let mut i: usize = 0;
        while i < array.len()
            invariant
                i <= array@.len(),
                array@ == encode_utf8(input@),
                prefix == varint_bytes(array@.len() as nat),
                result@ == prefix + array@.subrange(0, i as int),
            decreases array@.len() - i,
        {
            proof {
                assert(array@.subrange(0, i + 1) =~= array@.subrange(0, i as int).push(array@[i as int]));
            }
            result.push(array[i]);
            i = i + 1;
        }
        proof {
            assert(array@.subrange(0, array@.len() as int) =~= array@);
        }
        Ok(result)
    }

    pub fn decode(&self, initial_offset: u32) -> (r: Result<DecodeResult<String>, DatatypeError>)
        requires
            self.0@.len() <= u32::MAX,
        ensures
            match r {
                Ok(d) => string_parse(self.0@, initial_offset as int) == Ok::<(Seq<char>, int), DatatypeError>(
                    (d.value@, d.offset as int),
                ),
                Err(e) => string_parse(self.0@, initial_offset as int) == Err::<(Seq<char>, int), DatatypeError>(e),
            },
    {
        let length = match VarInt(self.0).decode(initial_offset) {
            Ok(length) => length,
            Err(e) => return Err(e),
        };
        let start: u32 = length.offset;
        proof {
            reveal_with_fuel(pow128, 6);
        }
        if start as u64 + length.value > self.0.len() as u64 {
            return Err(DatatypeError::TooSmallBuffer);
        }
        let end: u32 = (start as u64 + length.value) as u32;
        let mut buffer: Vec<u8> = Vec::new();
        let mut k: u32 = start;
        while k < end
            invariant
                start <= k <= end,
                end <= self.0@.len(),
                buffer@ == self.0@.subrange(start as int, k as int),
            decreases end - k,
        {
            proof {
                assert(self.0@.subrange(start as int, k + 1) =~= self.0@.subrange(start as int, k as int).push(
                    self.0@[k as int],
                ));
            }
            buffer.push(self.0[k as usize]);
            k = k + 1;
        }
        match utf8_string(buffer.as_slice()) {
            Some(string) => {
                proof {
                    encode_utf8_decode_utf8(string@);
                }
                Ok(DecodeResult { value: string, offset: end })
            },
            None => Err(DatatypeError::Utf8DecodeError),
        }
    }
}

/// A VarInt that has started but not finished: every byte read so far was
/// consumed, and more are needed. Such a prefix is shorter than five
/// bytes, and a next byte that completes it ends the VarInt right there.
proof fn lemma_unfinished(b: Seq<u8>, x: u8, i: int, count: nat, scale: nat, acc: nat)
    requires
        0 <= i <= b.len(),
        count < VARINT_MAX_BYTES,
        varint_parse_from(b, i, count, scale, acc) == Err::<(nat, int), DatatypeError>(
            DatatypeError::TooSmallBuffer,
        ),
    ensures
        b.len() - i < VARINT_MAX_BYTES - count,
        match varint_parse_from(b.push(x), i, count, scale, acc) {
            Ok((_, next)) => next == b.len() + 1,
            Err(_) => true,
        },
    decreases b.len() - i,
{
    if i < b.len() {
        assert(b.push(x)[i] == b[i]);
        lemma_unfinished(b, x, i + 1, count + 1, scale * 128, acc + (b[i] % 128) as nat * scale);
    } else {
        assert(b.push(x)[i] == x);
        reveal_with_fuel(varint_parse_from, 2);
    }
}

/// How a VarInt read byte by byte from a stream goes on after one more byte.
pub enum LengthStep {
    /// The VarInt is not finished yet.
    NeedMore,
    /// The VarInt is complete, with this value.
    Complete(u64),
    /// The bytes read cannot start a valid VarInt.
    Failed(DatatypeError),
}

/// Decodes one VarInt as its bytes arrive one at a time, such as the length
/// prefix of a frame.
pub struct LengthDecoder {
    bytes: Vec<u8>,
}

impl View for LengthDecoder {
    type V = Seq<u8>;

    closed spec fn view(&self) -> Seq<u8> {
        self.bytes@
    }
}

impl LengthDecoder {
    /// The bytes read so far are an unfinished VarInt.
    pub open spec fn wf(&self) -> bool {
        varint_parse(self@, 0) == Err::<(nat, int), DatatypeError>(DatatypeError::TooSmallBuffer)
    }

    pub fn new() -> (r: LengthDecoder)
        ensures
            r@ == Seq::<u8>::empty(),
            r.wf(),
    {
        LengthDecoder { bytes: Vec::new() }
    }

    /// Takes the next byte of the stream.
    pub fn push_byte(&mut self, byte: u8) -> (r: LengthStep)
        requires
            old(self).wf(),
        ensures
            match r {
                LengthStep::NeedMore => final(self)@ == old(self)@.push(byte) && final(self).wf(),
                LengthStep::Complete(v) => varint_parse(old(self)@.push(byte), 0) == Ok::<
                    (nat, int),
                    DatatypeError,
                >((v as nat, old(self)@.len() + 1 as int)),
                LengthStep::Failed(e) => e != DatatypeError::TooSmallBuffer && varint_parse(
                    old(self)@.push(byte),
                    0,
                ) == Err::<(nat, int), DatatypeError>(e),
            },
    {
        proof {
            lemma_unfinished(self.bytes@, byte, 0, 0, 1, 0);
        }
        self.bytes.push(byte);
        match VarInt(&self.bytes).decode(0) {
            Ok(d) => LengthStep::Complete(d.value),
            Err(DatatypeError::TooSmallBuffer) => LengthStep::NeedMore,
            Err(e) => LengthStep::Failed(e),
        }
    }

    /// What the VarInt is when the stream ends before its next byte: the
    /// value zero if no byte was read at all, marking a stream that closed
    /// cleanly between frames, and a stream error otherwise.
    pub fn end_of_stream(&self) -> (r: Result<u64, DatatypeError>)
        ensures
            self@.len() == 0 ==> r == Ok::<u64, DatatypeError>(0),
            self@.len() != 0 ==> r == Err::<u64, DatatypeError>(DatatypeError::StreamError),
    {
        if self.bytes.len() == 0 {
            Ok(0)
        } else {
            Err(DatatypeError::StreamError)
        }
    }
}

} // verus!
