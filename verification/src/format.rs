//! The MessagePack wire format: marker bytes and the byte-level encodings
//! that the encoder produces and the decoder reads.
use vstd::prelude::*;

verus! {

/// nil
pub const MSGPACK_NIL: u8 = 0xc0;
/// false
pub const MSGPACK_FALSE: u8 = 0xc2;
/// true
pub const MSGPACK_TRUE: u8 = 0xc3;
/// bin 8
pub const MSGPACK_BIN8: u8 = 0xc4;
/// bin 16
pub const MSGPACK_BIN16: u8 = 0xc5;
/// bin 32
pub const MSGPACK_BIN32: u8 = 0xc6;
/// ext 8
pub const MSGPACK_EXT8: u8 = 0xc7;
/// ext 16
pub const MSGPACK_EXT16: u8 = 0xc8;
/// ext 32
pub const MSGPACK_EXT32: u8 = 0xc9;
/// fixext 1
pub const MSGPACK_FIXEXT1: u8 = 0xd4;
/// fixext 2
pub const MSGPACK_FIXEXT2: u8 = 0xd5;
/// fixext 4
pub const MSGPACK_FIXEXT4: u8 = 0xd6;
/// fixext 8
pub const MSGPACK_FIXEXT8: u8 = 0xd7;
/// fixext 16
pub const MSGPACK_FIXEXT16: u8 = 0xd8;
/// float 32
pub const MSGPACK_FLOAT32: u8 = 0xca;
/// float 64
pub const MSGPACK_FLOAT64: u8 = 0xcb;
/// uint 8
pub const MSGPACK_UINT8: u8 = 0xcc;
/// uint 16
pub const MSGPACK_UINT16: u8 = 0xcd;
/// uint 32
pub const MSGPACK_UINT32: u8 = 0xce;
/// uint 64
pub const MSGPACK_UINT64: u8 = 0xcf;
/// int 8
pub const MSGPACK_INT8: u8 = 0xd0;
/// int 16
pub const MSGPACK_INT16: u8 = 0xd1;
/// int 32
pub const MSGPACK_INT32: u8 = 0xd2;
/// int 64
pub const MSGPACK_INT64: u8 = 0xd3;
/// str 8
pub const MSGPACK_STR8: u8 = 0xd9;
/// str 16
pub const MSGPACK_STR16: u8 = 0xda;
/// str 32
pub const MSGPACK_STR32: u8 = 0xdb;
/// array 16
pub const MSGPACK_ARRAY16: u8 = 0xdc;
/// array 32
pub const MSGPACK_ARRAY32: u8 = 0xdd;
/// map 16
pub const MSGPACK_MAP16: u8 = 0xde;
/// map 32
pub const MSGPACK_MAP32: u8 = 0xdf;
/// smallest positive fixint
pub const MSGPACK_POSFIXINT_MIN: u8 = 0x00;
/// largest positive fixint
pub const MSGPACK_POSFIXINT_MAX: u8 = 0x7f;
/// smallest fixmap marker
pub const MSGPACK_FIXMAP_MIN: u8 = 0x80;
/// largest fixmap marker
pub const MSGPACK_FIXMAP_MAX: u8 = 0x8f;
/// smallest fixarray marker
pub const MSGPACK_FIXARRAY_MIN: u8 = 0x90;
/// largest fixarray marker
pub const MSGPACK_FIXARRAY_MAX: u8 = 0x9f;
/// smallest fixstr marker
pub const MSGPACK_FIXSTR_MIN: u8 = 0xa0;
/// largest fixstr marker
pub const MSGPACK_FIXSTR_MAX: u8 = 0xbf;
/// smallest negative fixint (as a byte)
pub const MSGPACK_NEGFIXINT_MIN: u8 = 0xe0;

/// Two bytes, big-endian, of `n` (taken modulo 2^16 by the callers' ranges).
pub open spec fn be16(n: int) -> Seq<u8> {
    seq![(n / 256) as u8, (n % 256) as u8]
}

/// Four bytes, big-endian.
pub open spec fn be32(n: int) -> Seq<u8> {
    be16(n / 65536) + be16(n % 65536)
}

/// Eight bytes, big-endian.
pub open spec fn be64(n: int) -> Seq<u8> {
    be32(n / 4294967296) + be32(n % 4294967296)
}

/// The number held big-endian in the two bytes at `i`.
pub open spec fn read_be16(s: Seq<u8>, i: int) -> int {
    s[i] * 256 + s[i + 1]
}

/// The number held big-endian in the four bytes at `i`.
pub open spec fn read_be32(s: Seq<u8>, i: int) -> int {
    read_be16(s, i) * 65536 + read_be16(s, i + 2)
}

/// The number held big-endian in the eight bytes at `i`.
pub open spec fn read_be64(s: Seq<u8>, i: int) -> int {
    read_be32(s, i) * 4294967296 + read_be32(s, i + 4)
}

/// The shortest encoding of a non-negative integer: positive fixint, uint 8,
/// uint 16, uint 32 or uint 64.
pub open spec fn encode_uint(n: int) -> Seq<u8> {
    if n <= 127 {
        seq![n as u8]
    } else if n <= 255 {
        seq![MSGPACK_UINT8, n as u8]
    } else if n <= 65535 {
        seq![MSGPACK_UINT16] + be16(n)
    } else if n <= 4294967295 {
        seq![MSGPACK_UINT32] + be32(n)
    } else {
        seq![MSGPACK_UINT64] + be64(n)
    }
}

/// The encoding of a signed integer: non-negative values as `encode_uint`,
/// negative ones as negative fixint, int 8, int 16, int 32 or int 64
/// (two's complement), whichever is the shortest that holds the value.
pub open spec fn encode_int(n: int) -> Seq<u8> {
    if n >= 0 {
        encode_uint(n)
    } else if n >= -32 {
        seq![(n + 256) as u8]
    } else if n >= -128 {
        seq![MSGPACK_INT8, (n + 256) as u8]
    } else if n >= -32768 {
        seq![MSGPACK_INT16] + be16(n + 65536)
    } else if n >= -2147483648 {
        seq![MSGPACK_INT32] + be32(n + 4294967296)
    } else {
        seq![MSGPACK_INT64] + be64(n + 18446744073709551616)
    }
}

/// The header of a string of `len` bytes: fixstr, str 8, str 16 or str 32
/// (a length above 2^32 - 1 is written modulo 2^32).
pub open spec fn str_header(len: int) -> Seq<u8> {
    if len <= 31 {
        seq![(0xa0 + len) as u8]
    } else if len <= 255 {
        seq![MSGPACK_STR8, len as u8]
    } else if len <= 65535 {
        seq![MSGPACK_STR16] + be16(len)
    } else {
        seq![MSGPACK_STR32] + be32(len % 4294967296)
    }
}

/// The header of a byte array of `len` bytes: bin 8, bin 16 or bin 32.
pub open spec fn bin_header(len: int) -> Seq<u8> {
    if len <= 255 {
        seq![MSGPACK_BIN8, len as u8]
    } else if len <= 65535 {
        seq![MSGPACK_BIN16] + be16(len)
    } else {
        seq![MSGPACK_BIN32] + be32(len % 4294967296)
    }
}

/// The header of an array of `len` items: fixarray, array 16 or array 32.
pub open spec fn array_header(len: int) -> Seq<u8> {
    if len <= 15 {
        seq![(0x90 + len) as u8]
    } else if len <= 65535 {
        seq![MSGPACK_ARRAY16] + be16(len)
    } else {
        seq![MSGPACK_ARRAY32] + be32(len % 4294967296)
    }
}

/// The header of a map of `len` entries: fixmap, map 16 or map 32.
pub open spec fn map_header(len: int) -> Seq<u8> {
    if len <= 15 {
        seq![(0x80 + len) as u8]
    } else if len <= 65535 {
        seq![MSGPACK_MAP16] + be16(len)
    } else {
        seq![MSGPACK_MAP32] + be32(len % 4294967296)
    }
}

/// A string: its header, then its UTF-8 bytes.
pub open spec fn encode_str(bytes: Seq<u8>) -> Seq<u8> {
    str_header(bytes.len() as int) + bytes
}

/// A byte array: its header, then the bytes.
pub open spec fn encode_bin(bytes: Seq<u8>) -> Seq<u8> {
    bin_header(bytes.len() as int) + bytes
}

/// nil
pub open spec fn encode_nil() -> Seq<u8> {
    seq![MSGPACK_NIL]
}

/// true or false
pub open spec fn encode_bool(b: bool) -> Seq<u8> {
    seq![if b { MSGPACK_TRUE } else { MSGPACK_FALSE }]
}

/// float 32, given the bits of the float.
pub open spec fn encode_f32_bits(bits: u32) -> Seq<u8> {
    seq![MSGPACK_FLOAT32] + be32(bits as int)
}

/// float 64, given the bits of the float.
pub open spec fn encode_f64_bits(bits: u64) -> Seq<u8> {
    seq![MSGPACK_FLOAT64] + be64(bits as int)
}

/// A marker byte that starts a string.
pub open spec fn is_str_marker(b: u8) -> bool {
    (MSGPACK_FIXSTR_MIN <= b && b <= MSGPACK_FIXSTR_MAX) || b == MSGPACK_STR8 || b
        == MSGPACK_STR16 || b == MSGPACK_STR32
}

} // verus!
