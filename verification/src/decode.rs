//! Reading MessagePack: a cursor over the input bytes with one method per
//! kind of value. Each method is stated over a spec function of the input
//! and the offset that gives the outcome and the offset after the call.
use vstd::prelude::*;
use crate::errors::{Error, ErrorView};
use crate::format::{
    read_be16, read_be32, read_be64, is_str_marker, MSGPACK_NIL, MSGPACK_TRUE, MSGPACK_FALSE,
    MSGPACK_UINT8, MSGPACK_UINT16, MSGPACK_UINT32, MSGPACK_UINT64, MSGPACK_INT8, MSGPACK_INT16,
    MSGPACK_INT32, MSGPACK_INT64, MSGPACK_STR8, MSGPACK_STR16, MSGPACK_STR32, MSGPACK_MAP16,
    MSGPACK_MAP32, MSGPACK_ARRAY16, MSGPACK_ARRAY32, MSGPACK_FLOAT32, MSGPACK_FLOAT64,
    MSGPACK_POSFIXINT_MAX, MSGPACK_FIXMAP_MIN, MSGPACK_FIXMAP_MAX, MSGPACK_FIXARRAY_MIN,
    MSGPACK_FIXARRAY_MAX, MSGPACK_FIXSTR_MIN, MSGPACK_FIXSTR_MAX, MSGPACK_NEGFIXINT_MIN,
    MSGPACK_BIN8, MSGPACK_BIN16, MSGPACK_BIN32, MSGPACK_EXT8, MSGPACK_EXT16, MSGPACK_EXT32,
    MSGPACK_FIXEXT1, MSGPACK_FIXEXT2, MSGPACK_FIXEXT4, MSGPACK_FIXEXT8, MSGPACK_FIXEXT16,
};

verus! {

/// The outcome of reading at an offset: the result, and the offset after.
pub type Step<T> = (Result<T, ErrorView>, int);

/// One byte.
pub open spec fn dec_byte(s: Seq<u8>, off: int) -> Step<u8> {
    if off >= s.len() {
        (Err(ErrorView::InsufficientData), off)
    } else {
        (Ok(s[off]), off + 1)
    }
}

/// Two bytes, big-endian.
pub open spec fn dec_be16(s: Seq<u8>, off: int) -> Step<u16> {
    if off + 2 > s.len() {
        (Err(ErrorView::InsufficientData), off)
    } else {
        (Ok(read_be16(s, off) as u16), off + 2)
    }
}

/// Four bytes, big-endian.
pub open spec fn dec_be32(s: Seq<u8>, off: int) -> Step<u32> {
    if off + 4 > s.len() {
        (Err(ErrorView::InsufficientData), off)
    } else {
        (Ok(read_be32(s, off) as u32), off + 4)
    }
}

/// Eight bytes, big-endian.
pub open spec fn dec_be64(s: Seq<u8>, off: int) -> Step<u64> {
    if off + 8 > s.len() {
        (Err(ErrorView::InsufficientData), off)
    } else {
        (Ok(read_be64(s, off) as u64), off + 8)
    }
}

/// Widens the value of a step to `u64`.
pub open spec fn widen8(r: Step<u8>) -> Step<u64> {
    (match r.0 { Ok(v) => Ok(v as u64), Err(e) => Err(e) }, r.1)
}

/// Widens the value of a step to `u64`.
pub open spec fn widen16(r: Step<u16>) -> Step<u64> {
    (match r.0 { Ok(v) => Ok(v as u64), Err(e) => Err(e) }, r.1)
}

/// Widens the value of a step to `u64`.
pub open spec fn widen32(r: Step<u32>) -> Step<u64> {
    (match r.0 { Ok(v) => Ok(v as u64), Err(e) => Err(e) }, r.1)
}

/// An unsigned integer: positive fixint, uint 8, uint 16, uint 32 or uint 64.
pub open spec fn dec_uint(s: Seq<u8>, off: int) -> Step<u64> {
    let (p, o) = dec_byte(s, off);
    match p {
        Err(e) => (Err(e), o),
        Ok(b) => if b == MSGPACK_UINT8 {
            widen8(dec_byte(s, o))
        } else if b == MSGPACK_UINT16 {
            widen16(dec_be16(s, o))
        } else if b == MSGPACK_UINT32 {
            widen32(dec_be32(s, o))
        } else if b == MSGPACK_UINT64 {
            dec_be64(s, o)
        } else if b <= MSGPACK_POSFIXINT_MAX {
            (Ok(b as u64), o)
        } else {
            (Err(ErrorView::UnexpectedType), o)
        },
    }
}

/// Reinterprets a step's bits as a signed number of `bits` bits.
pub open spec fn signed_of(r: Step<u64>, modulus: int) -> Step<i64> {
    (
        match r.0 {
            Ok(v) => Ok(
                (if v >= modulus / 2 {
                    v - modulus
                } else {
                    v as int
                }) as i64,
            ),
            Err(e) => Err(e),
        },
        r.1,
    )
}

/// A signed integer: any integer format that holds a value of `i64`
/// (positive or negative fixint, uint 8 to 64, int 8 to 64). A uint 64
/// above `i64::MAX` is an overflow.
pub open spec fn dec_int(s: Seq<u8>, off: int) -> Step<i64> {
    let (p, o) = dec_byte(s, off);
    match p {
        Err(e) => (Err(e), o),
        Ok(b) => if b <= MSGPACK_POSFIXINT_MAX {
            (Ok(b as i64), o)
        } else if b >= MSGPACK_NEGFIXINT_MIN {
            (Ok((b - 256) as i64), o)
        } else if b == MSGPACK_UINT8 {
            signed_of(widen8(dec_byte(s, o)), 0x1_0000_0000_0000_0000_0000)
        } else if b == MSGPACK_UINT16 {
            signed_of(widen16(dec_be16(s, o)), 0x1_0000_0000_0000_0000_0000)
        } else if b == MSGPACK_UINT32 {
            signed_of(widen32(dec_be32(s, o)), 0x1_0000_0000_0000_0000_0000)
        } else if b == MSGPACK_UINT64 {
            let (r, o2) = dec_be64(s, o);
            match r {
                Err(e) => (Err(e), o2),
                Ok(v) => if v > i64::MAX {
                    (Err(ErrorView::IntegerOverflow), o2)
                } else {
                    (Ok(v as i64), o2)
                },
            }
        } else if b == MSGPACK_INT8 {
            signed_of(widen8(dec_byte(s, o)), 256)
        } else if b == MSGPACK_INT16 {
            signed_of(widen16(dec_be16(s, o)), 65536)
        } else if b == MSGPACK_INT32 {
            signed_of(widen32(dec_be32(s, o)), 4294967296)
        } else if b == MSGPACK_INT64 {
            signed_of(dec_be64(s, o), 18446744073709551616)
        } else {
            (Err(ErrorView::UnexpectedType), o)
        },
    }
}

/// The length given by a string header (fixstr, str 8, str 16, str 32).
pub open spec fn dec_str_len(s: Seq<u8>, off: int) -> Step<u64> {
    let (p, o) = dec_byte(s, off);
    match p {
        Err(e) => (Err(e), o),
        Ok(b) => if MSGPACK_FIXSTR_MIN <= b && b <= MSGPACK_FIXSTR_MAX {
            (Ok((b - MSGPACK_FIXSTR_MIN) as u64), o)
        } else if b == MSGPACK_STR8 {
            widen8(dec_byte(s, o))
        } else if b == MSGPACK_STR16 {
            widen16(dec_be16(s, o))
        } else if b == MSGPACK_STR32 {
            widen32(dec_be32(s, o))
        } else {
            (Err(ErrorView::UnexpectedType), o)
        },
    }
}

/// A string: its header, then as many bytes, which must be valid UTF-8.
pub open spec fn dec_str(s: Seq<u8>, off: int) -> Step<Seq<char>> {
    let (r, o) = dec_str_len(s, off);
    match r {
        Err(e) => (Err(e), o),
        Ok(len) => if o + len > s.len() {
            (Err(ErrorView::InsufficientData), o)
        } else if !vstd::utf8::valid_utf8(s.subrange(o, o + len)) {
            (Err(ErrorView::InvalidData), o)
        } else {
            (Ok(vstd::utf8::decode_utf8(s.subrange(o, o + len))), o + len)
        },
    }
}

/// The length given by a map header (fixmap, map 16, map 32).
pub open spec fn dec_map_len(s: Seq<u8>, off: int) -> Step<u64> {
    let (p, o) = dec_byte(s, off);
    match p {
        Err(e) => (Err(e), o),
        Ok(b) => if MSGPACK_FIXMAP_MIN <= b && b <= MSGPACK_FIXMAP_MAX {
            (Ok((b - MSGPACK_FIXMAP_MIN) as u64), o)
        } else if b == MSGPACK_MAP16 {
            widen16(dec_be16(s, o))
        } else if b == MSGPACK_MAP32 {
            widen32(dec_be32(s, o))
        } else {
            (Err(ErrorView::UnexpectedType), o)
        },
    }
}

/// The length given by an array header (fixarray, array 16, array 32).
pub open spec fn dec_array_len(s: Seq<u8>, off: int) -> Step<u64> {
    let (p, o) = dec_byte(s, off);
    match p {
        Err(e) => (Err(e), o),
        Ok(b) => if MSGPACK_FIXARRAY_MIN <= b && b <= MSGPACK_FIXARRAY_MAX {
            (Ok((b - MSGPACK_FIXARRAY_MIN) as u64), o)
        } else if b == MSGPACK_ARRAY16 {
            widen16(dec_be16(s, o))
        } else if b == MSGPACK_ARRAY32 {
            widen32(dec_be32(s, o))
        } else {
            (Err(ErrorView::UnexpectedType), o)
        },
    }
}

/// true or false.
pub open spec fn dec_bool(s: Seq<u8>, off: int) -> Step<bool> {
    let (p, o) = dec_byte(s, off);
    match p {
        Err(e) => (Err(e), o),
        Ok(b) => if b == MSGPACK_TRUE {
            (Ok(true), o)
        } else if b == MSGPACK_FALSE {
            (Ok(false), o)
        } else {
            (Err(ErrorView::UnexpectedType), o)
        },
    }
}

/// nil.
pub open spec fn dec_nil(s: Seq<u8>, off: int) -> Step<()> {
    let (p, o) = dec_byte(s, off);
    match p {
        Err(e) => (Err(e), o),
        Ok(b) => if b == MSGPACK_NIL {
            (Ok(()), o)
        } else {
            (Err(ErrorView::UnexpectedType), o)
        },
    }
}

/// A float 32, as its bits.
pub open spec fn dec_f32_bits(s: Seq<u8>, off: int) -> Step<u32> {
    let (p, o) = dec_byte(s, off);
    match p {
        Err(e) => (Err(e), o),
        Ok(b) => if b == MSGPACK_FLOAT32 {
            dec_be32(s, o)
        } else {
            (Err(ErrorView::UnexpectedType), o)
        },
    }
}

/// A float 64, as its bits.
pub open spec fn dec_f64_bits(s: Seq<u8>, off: int) -> Step<u64> {
    let (p, o) = dec_byte(s, off);
    match p {
        Err(e) => (Err(e), o),
        Ok(b) => if b == MSGPACK_FLOAT64 {
            dec_be64(s, o)
        } else {
            (Err(ErrorView::UnexpectedType), o)
        },
    }
}

/// Whether the next byte is nil, without consuming it.
pub open spec fn peek_is_nil(s: Seq<u8>, off: int) -> Step<bool> {
    if off >= s.len() {
        (Err(ErrorView::InsufficientData), off)
    } else {
        (Ok(s[off] == MSGPACK_NIL), off)
    }
}

/// Whether the next byte starts a string, without consuming it.
pub open spec fn peek_is_str(s: Seq<u8>, off: int) -> Step<bool> {
    if off >= s.len() {
        (Err(ErrorView::InsufficientData), off)
    } else {
        (Ok(is_str_marker(s[off])), off)
    }
}

/// The measure that skipping decreases: bytes left before the end.
pub open spec fn bytes_left(s: Seq<u8>, off: int) -> nat {
    if off < s.len() {
        (s.len() - off) as nat
    } else {
        0
    }
}

/// Skips `len` bytes of a string's content.
pub open spec fn skip_bytes(s: Seq<u8>, r: Step<u64>) -> Step<()> {
    match r.0 {
        Err(e) => (Err(e), r.1),
        Ok(len) => if r.1 + len > s.len() {
            (Err(ErrorView::InsufficientData), r.1)
        } else {
            (Ok(()), r.1 + len)
        },
    }
}

/// Skips `n` values when the header read gave `r`.
pub open spec fn skip_items(s: Seq<u8>, r: Step<u64>, per_entry: int, from: int) -> Step<()>
    decreases bytes_left(s, from), 0nat, 0nat,
{
    match r.0 {
        Err(e) => (Err(e), r.1),
        Ok(n) => if from < s.len() && r.1 > from {
            skip_many(s, r.1, per_entry * n)
        } else {
            (Ok(()), r.1)
        },
    }
}

/// Skips `1 + len` bytes (an extension's type byte and its data).
pub open spec fn skip_ext(s: Seq<u8>, r: Step<u64>) -> Step<()> {
    match r.0 {
        Err(e) => (Err(e), r.1),
        Ok(len) => skip_bytes(s, (Ok((len + 1) as u64), r.1)),
    }
}

/// Skips any one value, whatever its type; nested maps and arrays are
/// skipped whole. It succeeds exactly when a complete value starts at
/// `off`, and then ends where the value ends; a value cut short by the end
/// of the input is `InsufficientData`, whether its size is fixed by its
/// marker (integers, floats, fixext) or given by a length (strings,
/// binaries, extensions).
pub open spec fn skip_value(s: Seq<u8>, off: int) -> Step<()>
    decreases bytes_left(s, off), 1nat, 0nat,
{
    let (p, o) = dec_byte(s, off);
    match p {
        Err(e) => (Err(e), o),
        Ok(b) => if MSGPACK_FIXSTR_MIN <= b && b <= MSGPACK_FIXSTR_MAX {
            skip_bytes(s, (Ok((b - MSGPACK_FIXSTR_MIN) as u64), o))
        } else if b == MSGPACK_STR8 {
            skip_bytes(s, widen8(dec_byte(s, o)))
        } else if b == MSGPACK_STR16 {
            skip_bytes(s, widen16(dec_be16(s, o)))
        } else if b == MSGPACK_STR32 {
            skip_bytes(s, widen32(dec_be32(s, o)))
        } else if b <= MSGPACK_POSFIXINT_MAX || b >= MSGPACK_NEGFIXINT_MIN {
            (Ok(()), o)
        } else if b == MSGPACK_BIN8 {
            skip_bytes(s, widen8(dec_byte(s, o)))
        } else if b == MSGPACK_BIN16 {
            skip_bytes(s, widen16(dec_be16(s, o)))
        } else if b == MSGPACK_BIN32 {
            skip_bytes(s, widen32(dec_be32(s, o)))
        } else if b == MSGPACK_EXT8 {
            skip_ext(s, widen8(dec_byte(s, o)))
        } else if b == MSGPACK_EXT16 {
            skip_ext(s, widen16(dec_be16(s, o)))
        } else if b == MSGPACK_EXT32 {
            skip_ext(s, widen32(dec_be32(s, o)))
        } else if b == MSGPACK_UINT8 || b == MSGPACK_INT8 {
            skip_bytes(s, (Ok(1u64), o))
        } else if b == MSGPACK_UINT16 || b == MSGPACK_INT16 || b == MSGPACK_FIXEXT1 {
            skip_bytes(s, (Ok(2u64), o))
        } else if b == MSGPACK_FIXEXT2 {
            skip_bytes(s, (Ok(3u64), o))
        } else if b == MSGPACK_UINT32 || b == MSGPACK_INT32 || b == MSGPACK_FLOAT32 {
            skip_bytes(s, (Ok(4u64), o))
        } else if b == MSGPACK_FIXEXT4 {
            skip_bytes(s, (Ok(5u64), o))
        } else if b == MSGPACK_UINT64 || b == MSGPACK_INT64 || b == MSGPACK_FLOAT64 {
            skip_bytes(s, (Ok(8u64), o))
        } else if b == MSGPACK_FIXEXT8 {
            skip_bytes(s, (Ok(9u64), o))
        } else if b == MSGPACK_FIXEXT16 {
            skip_bytes(s, (Ok(17u64), o))
        } else if b == MSGPACK_NIL || b == MSGPACK_TRUE || b == MSGPACK_FALSE {
            (Ok(()), o)
        } else if MSGPACK_FIXMAP_MIN <= b && b <= MSGPACK_FIXMAP_MAX {
            skip_items(s, (Ok((b - MSGPACK_FIXMAP_MIN) as u64), o), 2, off)
        } else if b == MSGPACK_MAP16 {
            skip_items(s, widen16(dec_be16(s, o)), 2, off)
        } else if b == MSGPACK_MAP32 {
            skip_items(s, widen32(dec_be32(s, o)), 2, off)
        } else if MSGPACK_FIXARRAY_MIN <= b && b <= MSGPACK_FIXARRAY_MAX {
            skip_items(s, (Ok((b - MSGPACK_FIXARRAY_MIN) as u64), o), 1, off)
        } else if b == MSGPACK_ARRAY16 {
            skip_items(s, widen16(dec_be16(s, o)), 1, off)
        } else if b == MSGPACK_ARRAY32 {
            skip_items(s, widen32(dec_be32(s, o)), 1, off)
        } else {
            (Err(ErrorView::UnexpectedType), o)
        },
    }
}

/// Skips `n` values one after the other, stopping at the first failure.
pub open spec fn skip_many(s: Seq<u8>, off: int, n: int) -> Step<()>
    decreases bytes_left(s, off), 2nat, if n > 0 { n as nat } else { 0 },
{
    if n <= 0 {
        (Ok(()), off)
    } else {
        let (r, o) = skip_value(s, off);
        match r {
            Err(e) => (Err(e), o),
            Ok(()) => if off < s.len() && o > off {
                skip_many(s, o, n - 1)
            } else {
                (Ok(()), o)
            },
        }
    }
}

/// Facts about skipping: a skip that succeeds consumes at least one byte
/// and starts before the end; the offset never moves back, and never goes
/// past the end.
pub proof fn lemma_skip_value(s: Seq<u8>, off: int)
    requires
        off <= s.len(),
    ensures
        skip_value(s, off).1 >= off,
        skip_value(s, off).1 <= s.len(),
        skip_value(s, off).0 is Ok ==> off < s.len() && skip_value(s, off).1 > off,
    decreases bytes_left(s, off), 1nat, 0nat,
{
    let (p, o) = dec_byte(s, off);
    if let Ok(b) = p {
        if MSGPACK_FIXMAP_MIN <= b && b <= MSGPACK_FIXMAP_MAX {
            lemma_skip_items(s, (Ok((b - MSGPACK_FIXMAP_MIN) as u64), o), 2, off);
        } else if b == MSGPACK_MAP16 {
            lemma_skip_items(s, widen16(dec_be16(s, o)), 2, off);
        } else if b == MSGPACK_MAP32 {
            lemma_skip_items(s, widen32(dec_be32(s, o)), 2, off);
        } else if MSGPACK_FIXARRAY_MIN <= b && b <= MSGPACK_FIXARRAY_MAX {
            lemma_skip_items(s, (Ok((b - MSGPACK_FIXARRAY_MIN) as u64), o), 1, off);
        } else if b == MSGPACK_ARRAY16 {
            lemma_skip_items(s, widen16(dec_be16(s, o)), 1, off);
        } else if b == MSGPACK_ARRAY32 {
            lemma_skip_items(s, widen32(dec_be32(s, o)), 1, off);
        }
    }
}

proof fn lemma_skip_items(s: Seq<u8>, r: Step<u64>, per_entry: int, from: int)
    requires
        from <= r.1 <= s.len(),
    ensures
        skip_items(s, r, per_entry, from).1 >= r.1,
        skip_items(s, r, per_entry, from).1 <= s.len(),
    decreases bytes_left(s, from), 0nat, 0nat,
{
    if let Ok(n) = r.0 {
        if from < s.len() && r.1 > from {
            lemma_skip_many(s, r.1, per_entry * n);
        }
    }
}

proof fn lemma_skip_many(s: Seq<u8>, off: int, n: int)
    requires
        off <= s.len(),
    ensures
        skip_many(s, off, n).1 >= off,
        skip_many(s, off, n).1 <= s.len(),
    decreases bytes_left(s, off), 2nat, if n > 0 { n as nat } else { 0 },
{
    if n > 0 {
        lemma_skip_value(s, off);
        let (r, o) = skip_value(s, off);
        if r is Ok && off < s.len() && o > off {
            lemma_skip_many(s, o, n - 1);
        }
    }
}

} // verus!

verus! {

/// The result of an exec call, with its error taken by its view.
pub open spec fn res_view<T>(r: Result<T, Error>) -> Result<T, ErrorView> {
    match r {
        Ok(v) => Ok(v),
        Err(e) => Err(e@),
    }
}

/// The result of an exec call that returns a string, taken by its view.
pub open spec fn str_res_view(r: Result<String, Error>) -> Result<Seq<char>, ErrorView> {
    match r {
        Ok(v) => Ok(v@),
        Err(e) => Err(e@),
    }
}

/// `String::from_utf8` on a copy of `bytes`: `Some` exactly when the bytes
/// are valid UTF-8, and then the string they encode (std documents that
/// `from_utf8` fails only on invalid UTF-8 and otherwise keeps the bytes).
#[verifier::external_body]
fn utf8_string(bytes: &[u8]) -> (r: Option<String>)
    ensures
        r is Some <==> vstd::utf8::valid_utf8(bytes@),
        r matches Some(s) ==> s@ == vstd::utf8::decode_utf8(bytes@),
{
    String::from_utf8(bytes.to_vec()).ok()
}

/// A reading position in MessagePack input.
pub struct Decoder<'input> {
    input: &'input [u8],
    offset: usize,
}

impl<'input> Decoder<'input> {
    /// The whole input.
    pub closed spec fn bytes(&self) -> Seq<u8> {
        self.input@
    }

    /// The offset of the next byte to read.
    pub closed spec fn pos(&self) -> int {
        self.offset as int
    }

    /// A slice is never longer than `isize::MAX`, and the offset never
    /// passes the end.
    pub closed spec fn wf(&self) -> bool {
        &&& self.input@.len() <= isize::MAX
        &&& self.offset <= self.input@.len()
    }

    /// A decoder at the start of `input`.
    pub fn new(input: &'input [u8]) -> (r: Self)
        requires
            input@.len() <= isize::MAX,
        ensures
            r.wf(),
            r.bytes() == input@,
            r.pos() == 0,
    {
        Decoder { input, offset: 0 }
    }

    /// The offset of the next byte to read.
    pub fn offset(&self) -> (r: usize)
        ensures
            r == self.pos(),
    {
        self.offset
    }

    fn has(&self, n: usize) -> (r: bool)
        requires
            self.wf(),
        ensures
            r == (self.pos() + n <= self.bytes().len()),
    {
        self.offset <= self.input.len() && self.input.len() - self.offset >= n
    }

    /// Decodes a single byte from the input.
    pub fn decode_u8(&mut self) -> (r: Result<u8, Error>)
        requires
            old(self).wf(),
        ensures
            final(self).wf(),
            final(self).bytes() == old(self).bytes(),
            (res_view(r), final(self).pos()) == dec_byte(old(self).bytes(), old(self).pos()),
    {
        if self.offset >= self.input.len() {
            return Err(Error::InsufficientData);
        }
        let value = self.input[self.offset];
        self.offset += 1;
        Ok(value)
    }

    /// Decodes a 16-bit unsigned integer in big-endian byte order.
    pub fn decode_u16(&mut self) -> (r: Result<u16, Error>)
        requires
            old(self).wf(),
        ensures
            final(self).wf(),
            final(self).bytes() == old(self).bytes(),
            (res_view(r), final(self).pos()) == dec_be16(old(self).bytes(), old(self).pos()),
    {
        if !self.has(2) {
            return Err(Error::InsufficientData);
        }
        let o = self.offset;
        let value = (self.input[o] as u16) * 256 + self.input[o + 1] as u16;
        self.offset += 2;
        Ok(value)
    }

    /// Decodes a 32-bit unsigned integer in big-endian byte order.
    pub fn decode_u32(&mut self) -> (r: Result<u32, Error>)
        requires
            old(self).wf(),
        ensures
            final(self).wf(),
            final(self).bytes() == old(self).bytes(),
            (res_view(r), final(self).pos()) == dec_be32(old(self).bytes(), old(self).pos()),
    {
        if !self.has(4) {
            return Err(Error::InsufficientData);
        }
        let o = self.offset;
        let hi = (self.input[o] as u32) * 256 + self.input[o + 1] as u32;
        let lo = (self.input[o + 2] as u32) * 256 + self.input[o + 3] as u32;
        self.offset += 4;
        Ok(hi * 65536 + lo)
    }

    fn decode_be64(&mut self) -> (r: Result<u64, Error>)
        requires
            old(self).wf(),
        ensures
            final(self).wf(),
            final(self).bytes() == old(self).bytes(),
            (res_view(r), final(self).pos()) == dec_be64(old(self).bytes(), old(self).pos()),
    {
        if !self.has(8) {
            return Err(Error::InsufficientData);
        }
        let hi = self.decode_u32();
        let lo = self.decode_u32();
        match (hi, lo) {
            (Ok(hi), Ok(lo)) => Ok((hi as u64) * 4294967296 + lo as u64),
            _ => Err(Error::InsufficientData),
        }
    }

    /// Decodes a MessagePack-encoded unsigned 64-bit integer: positive
    /// fixint, uint 8, uint 16, uint 32 or uint 64.
    pub fn decode_u64(&mut self) -> (r: Result<u64, Error>)
        requires
            old(self).wf(),
        ensures
            final(self).wf(),
            final(self).bytes() == old(self).bytes(),
            (res_view(r), final(self).pos()) == dec_uint(old(self).bytes(), old(self).pos()),
    {
        let prefix = self.decode_u8()?;
        if prefix == MSGPACK_UINT8 {
            Ok(self.decode_u8()? as u64)
        } else if prefix == MSGPACK_UINT16 {
            Ok(self.decode_u16()? as u64)
        } else if prefix == MSGPACK_UINT32 {
            Ok(self.decode_u32()? as u64)
        } else if prefix == MSGPACK_UINT64 {
            self.decode_be64()
        } else if prefix <= MSGPACK_POSFIXINT_MAX {
            Ok(prefix as u64)
        } else {
            Err(Error::UnexpectedType)
        }
    }

    /// Decodes a MessagePack-encoded signed 64-bit integer: positive or
    /// negative fixint, uint 8 to uint 64 (a uint 64 above `i64::MAX` is an
    /// overflow), int 8 to int 64.
    pub fn decode_i64(&mut self) -> (r: Result<i64, Error>)
        requires
            old(self).wf(),
        ensures
            final(self).wf(),
            final(self).bytes() == old(self).bytes(),
            (res_view(r), final(self).pos()) == dec_int(old(self).bytes(), old(self).pos()),
    {
        let prefix = self.decode_u8()?;
        if prefix <= MSGPACK_POSFIXINT_MAX {
            Ok(prefix as i64)
        } else if prefix >= MSGPACK_NEGFIXINT_MIN {
            Ok(prefix as i64 - 256)
        } else if prefix == MSGPACK_UINT8 {
            Ok(self.decode_u8()? as i64)
        } else if prefix == MSGPACK_UINT16 {
            Ok(self.decode_u16()? as i64)
        } else if prefix == MSGPACK_UINT32 {
            Ok(self.decode_u32()? as i64)
        } else if prefix == MSGPACK_UINT64 {
            let v = self.decode_be64()?;
            if v > i64::MAX as u64 {
                Err(Error::IntegerOverflow)
            } else {
                Ok(v as i64)
            }
        } else if prefix == MSGPACK_INT8 {
            let v = self.decode_u8()? as i64;
            Ok(if v >= 128 { v - 256 } else { v })
        } else if prefix == MSGPACK_INT16 {
            let v = self.decode_u16()? as i64;
            Ok(if v >= 32768 { v - 65536 } else { v })
        } else if prefix == MSGPACK_INT32 {
            let v = self.decode_u32()? as i64;
            Ok(if v >= 2147483648 { v - 4294967296 } else { v })
        } else if prefix == MSGPACK_INT64 {
            let v = self.decode_be64()?;
            if v >= 9223372036854775808 {
                Ok((v as i128 - 18446744073709551616i128) as i64)
            } else {
                Ok(v as i64)
            }
        } else {
            Err(Error::UnexpectedType)
        }
    }

    /// Decodes a float 32, giving its bits (`f32::from_bits` makes the float).
    pub fn decode_f32_bits(&mut self) -> (r: Result<u32, Error>)
        requires
            old(self).wf(),
        ensures
            final(self).wf(),
            final(self).bytes() == old(self).bytes(),
            (res_view(r), final(self).pos()) == dec_f32_bits(old(self).bytes(), old(self).pos()),
    {
        let prefix = self.decode_u8()?;
        if prefix == MSGPACK_FLOAT32 {
            self.decode_u32()
        } else {
            Err(Error::UnexpectedType)
        }
    }

    /// Decodes a float 64, giving its bits (`f64::from_bits` makes the float).
    pub fn decode_f64_bits(&mut self) -> (r: Result<u64, Error>)
        requires
            old(self).wf(),
        ensures
            final(self).wf(),
            final(self).bytes() == old(self).bytes(),
            (res_view(r), final(self).pos()) == dec_f64_bits(old(self).bytes(), old(self).pos()),
    {
        let prefix = self.decode_u8()?;
        if prefix == MSGPACK_FLOAT64 {
            self.decode_be64()
        } else {
            Err(Error::UnexpectedType)
        }
    }

    fn decode_str_len(&mut self) -> (r: Result<u64, Error>)
        requires
            old(self).wf(),
        ensures
            final(self).wf(),
            final(self).bytes() == old(self).bytes(),
            (res_view(r), final(self).pos()) == dec_str_len(old(self).bytes(), old(self).pos()),
            r is Ok ==> final(self).pos() <= final(self).bytes().len(),
    {
        let prefix = self.decode_u8()?;
        if MSGPACK_FIXSTR_MIN <= prefix && prefix <= MSGPACK_FIXSTR_MAX {
            Ok((prefix - MSGPACK_FIXSTR_MIN) as u64)
        } else if prefix == MSGPACK_STR8 {
            Ok(self.decode_u8()? as u64)
        } else if prefix == MSGPACK_STR16 {
            Ok(self.decode_u16()? as u64)
        } else if prefix == MSGPACK_STR32 {
            Ok(self.decode_u32()? as u64)
        } else {
            Err(Error::UnexpectedType)
        }
    }

    /// Decodes a MessagePack-encoded string: fixstr, str 8, str 16 or
    /// str 32, whose bytes must be valid UTF-8.
    pub fn decode_string(&mut self) -> (r: Result<String, Error>)
        requires
            old(self).wf(),
        ensures
            final(self).wf(),
            final(self).bytes() == old(self).bytes(),
            (str_res_view(r), final(self).pos()) == dec_str(old(self).bytes(), old(self).pos()),
    {
        let len = self.decode_str_len()?;
        if len > (self.input.len() - self.offset) as u64 {
            return Err(Error::InsufficientData);
        }
        let end = self.offset + len as usize;
        let value = match utf8_string(&self.input[self.offset..end]) {
            Some(v) => v,
            None => return Err(Error::InvalidData),
        };
        self.offset = end;
        Ok(value)
    }

    /// Decodes a MessagePack-encoded map length: fixmap, map 16 or map 32.
    pub fn decode_map_len(&mut self) -> (r: Result<u64, Error>)
        requires
            old(self).wf(),
        ensures
            final(self).wf(),
            final(self).bytes() == old(self).bytes(),
            (res_view(r), final(self).pos()) == dec_map_len(old(self).bytes(), old(self).pos()),
    {
        let prefix = self.decode_u8()?;
        if MSGPACK_FIXMAP_MIN <= prefix && prefix <= MSGPACK_FIXMAP_MAX {
            Ok((prefix - MSGPACK_FIXMAP_MIN) as u64)
        } else if prefix == MSGPACK_MAP16 {
            Ok(self.decode_u16()? as u64)
        } else if prefix == MSGPACK_MAP32 {
            Ok(self.decode_u32()? as u64)
        } else {
            Err(Error::UnexpectedType)
        }
    }

    /// Decodes a MessagePack-encoded array length: fixarray, array 16 or
    /// array 32.
    pub fn decode_array_len(&mut self) -> (r: Result<u64, Error>)
        requires
            old(self).wf(),
        ensures
            final(self).wf(),
            final(self).bytes() == old(self).bytes(),
            (res_view(r), final(self).pos()) == dec_array_len(old(self).bytes(), old(self).pos()),
    {
        let prefix = self.decode_u8()?;
        if MSGPACK_FIXARRAY_MIN <= prefix && prefix <= MSGPACK_FIXARRAY_MAX {
            Ok((prefix - MSGPACK_FIXARRAY_MIN) as u64)
        } else if prefix == MSGPACK_ARRAY16 {
            Ok(self.decode_u16()? as u64)
        } else if prefix == MSGPACK_ARRAY32 {
            Ok(self.decode_u32()? as u64)
        } else {
            Err(Error::UnexpectedType)
        }
    }

    /// Decodes a MessagePack-encoded boolean value.
    pub fn decode_bool(&mut self) -> (r: Result<bool, Error>)
        requires
            old(self).wf(),
        ensures
            final(self).wf(),
            final(self).bytes() == old(self).bytes(),
            (res_view(r), final(self).pos()) == dec_bool(old(self).bytes(), old(self).pos()),
    {
        let prefix = self.decode_u8()?;
        if prefix == MSGPACK_TRUE {
            Ok(true)
        } else if prefix == MSGPACK_FALSE {
            Ok(false)
        } else {
            Err(Error::UnexpectedType)
        }
    }

    /// Decodes a MessagePack-encoded nil value.
    pub fn decode_nil(&mut self) -> (r: Result<(), Error>)
        requires
            old(self).wf(),
        ensures
            final(self).wf(),
            final(self).bytes() == old(self).bytes(),
            (res_view(r), final(self).pos()) == dec_nil(old(self).bytes(), old(self).pos()),
    {
        let prefix = self.decode_u8()?;
        if prefix == MSGPACK_NIL {
            Ok(())
        } else {
            Err(Error::UnexpectedType)
        }
    }

    /// Whether the next value is nil, without advancing the offset.
    pub fn peek_nil(&self) -> (r: Result<bool, Error>)
        requires
            self.wf(),
        ensures
            (res_view(r), self.pos()) == peek_is_nil(self.bytes(), self.pos()),
    {
        if self.offset >= self.input.len() {
            return Err(Error::InsufficientData);
        }
        Ok(self.input[self.offset] == MSGPACK_NIL)
    }

    /// Whether the next value is a string, without advancing the offset.
    pub fn peek_string(&self) -> (r: Result<bool, Error>)
        requires
            self.wf(),
        ensures
            (res_view(r), self.pos()) == peek_is_str(self.bytes(), self.pos()),
    {
        if self.offset >= self.input.len() {
            return Err(Error::InsufficientData);
        }
        let prefix = self.input[self.offset];
        Ok((prefix >= MSGPACK_FIXSTR_MIN && prefix <= MSGPACK_FIXSTR_MAX) || prefix == MSGPACK_STR8
            || prefix == MSGPACK_STR16 || prefix == MSGPACK_STR32)
    }

    /// Skips `n` values, one after the other.
    fn skip_n(&mut self, n: u64) -> (r: Result<(), Error>)
        requires
            old(self).wf(),
        ensures
            final(self).wf(),
            final(self).bytes() == old(self).bytes(),
            (res_view(r), final(self).pos()) == skip_many(old(self).bytes(), old(self).pos(), n as int),
        decreases bytes_left(old(self).bytes(), old(self).pos()), 2nat, n,
    {
        let ghost s = self.bytes();
        let ghost start = self.pos();
        let mut i: u64 = 0;
        while i < n
            invariant
                self.wf(),
                self.bytes() == s,
                s == old(self).bytes(),
                start == old(self).pos(),
                start <= self.pos(),
                i <= n,
                skip_many(s, start, n as int) == skip_many(s, self.pos(), n - i),
            decreases n - i,
        {
            let ghost before = self.pos();
            proof {
                lemma_skip_value(s, before);
            }
            self.skip_value()?;
            i += 1;
        }
        Ok(())
    }

    /// Skips a MessagePack value of any type, nested maps and arrays whole.
    /// This is used when encountering unknown field names in a struct.
    pub fn skip_value(&mut self) -> (r: Result<(), Error>)
        requires
            old(self).wf(),
        ensures
            final(self).wf(),
            final(self).bytes() == old(self).bytes(),
            (res_view(r), final(self).pos()) == skip_value(old(self).bytes(), old(self).pos()),
        decreases bytes_left(old(self).bytes(), old(self).pos()), 1nat, 0nat,
    {
        let prefix = self.decode_u8()?;
        if MSGPACK_FIXSTR_MIN <= prefix && prefix <= MSGPACK_FIXSTR_MAX {
            let len = (prefix - MSGPACK_FIXSTR_MIN) as u64;
            self.skip_content(len)
        } else if prefix == MSGPACK_STR8 {
            let len = self.decode_u8()? as u64;
            self.skip_content(len)
        } else if prefix == MSGPACK_STR16 {
            let len = self.decode_u16()? as u64;
            self.skip_content(len)
        } else if prefix == MSGPACK_STR32 {
            let len = self.decode_u32()? as u64;
            self.skip_content(len)
        } else if prefix <= MSGPACK_POSFIXINT_MAX || prefix >= MSGPACK_NEGFIXINT_MIN {
            Ok(())
        } else if prefix == MSGPACK_BIN8 {
            let len = self.decode_u8()? as u64;
            self.skip_content(len)
        } else if prefix == MSGPACK_BIN16 {
            let len = self.decode_u16()? as u64;
            self.skip_content(len)
        } else if prefix == MSGPACK_BIN32 {
            let len = self.decode_u32()? as u64;
            self.skip_content(len)
        } else if prefix == MSGPACK_EXT8 {
            let len = self.decode_u8()? as u64;
            self.skip_content(len + 1)
        } else if prefix == MSGPACK_EXT16 {
            let len = self.decode_u16()? as u64;
            self.skip_content(len + 1)
        } else if prefix == MSGPACK_EXT32 {
            let len = self.decode_u32()? as u64;
            self.skip_content(len + 1)
        } else if prefix == MSGPACK_UINT8 || prefix == MSGPACK_INT8 {
            self.skip_content(1)
        } else if prefix == MSGPACK_UINT16 || prefix == MSGPACK_INT16 || prefix == MSGPACK_FIXEXT1 {
            self.skip_content(2)
        } else if prefix == MSGPACK_FIXEXT2 {
            self.skip_content(3)
        } else if prefix == MSGPACK_UINT32 || prefix == MSGPACK_INT32 || prefix == MSGPACK_FLOAT32 {
            self.skip_content(4)
        } else if prefix == MSGPACK_FIXEXT4 {
            self.skip_content(5)
        } else if prefix == MSGPACK_UINT64 || prefix == MSGPACK_INT64 || prefix == MSGPACK_FLOAT64 {
            self.skip_content(8)
        } else if prefix == MSGPACK_FIXEXT8 {
            self.skip_content(9)
        } else if prefix == MSGPACK_FIXEXT16 {
            self.skip_content(17)
        } else if prefix == MSGPACK_NIL || prefix == MSGPACK_TRUE || prefix == MSGPACK_FALSE {
            Ok(())
        } else if MSGPACK_FIXMAP_MIN <= prefix && prefix <= MSGPACK_FIXMAP_MAX {
            let len = (prefix - MSGPACK_FIXMAP_MIN) as u64;
            self.skip_n(2 * len)
        } else if prefix == MSGPACK_MAP16 {
            let len = self.decode_u16()? as u64;
            self.skip_n(2 * len)
        } else if prefix == MSGPACK_MAP32 {
            let len = self.decode_u32()? as u64;
            self.skip_n(2 * len)
        } else if MSGPACK_FIXARRAY_MIN <= prefix && prefix <= MSGPACK_FIXARRAY_MAX {
            let len = (prefix - MSGPACK_FIXARRAY_MIN) as u64;
            self.skip_n(len)
        } else if prefix == MSGPACK_ARRAY16 {
            let len = self.decode_u16()? as u64;
            self.skip_n(len)
        } else if prefix == MSGPACK_ARRAY32 {
            let len = self.decode_u32()? as u64;
            self.skip_n(len)
        } else {
            Err(Error::UnexpectedType)
        }
    }

    fn skip_content(&mut self, len: u64) -> (r: Result<(), Error>)
        requires
            old(self).wf(),
            old(self).pos() <= old(self).bytes().len(),
        ensures
            final(self).wf(),
            final(self).bytes() == old(self).bytes(),
            (res_view(r), final(self).pos()) == skip_bytes(old(self).bytes(), (Ok(len), old(self).pos())),
    {
        if len > (self.input.len() - self.offset) as u64 {
            return Err(Error::InsufficientData);
        }
        self.offset += len as usize;
        Ok(())
    }
}

} // verus!
