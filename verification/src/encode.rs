//! Writing MessagePack: one function per kind of value, each appending the
//! exact bytes of its encoding to a buffer.
use vstd::prelude::*;
use crate::errors::EncodeError;
use crate::text::string_push;
use crate::format::{MSGPACK_NIL, MSGPACK_FALSE, MSGPACK_TRUE, MSGPACK_BIN8, MSGPACK_BIN16, MSGPACK_BIN32, MSGPACK_FLOAT32, MSGPACK_FLOAT64, MSGPACK_UINT8, MSGPACK_UINT16, MSGPACK_UINT32, MSGPACK_UINT64, MSGPACK_INT8, MSGPACK_INT16, MSGPACK_INT32, MSGPACK_INT64, MSGPACK_STR8, MSGPACK_STR16, MSGPACK_STR32, MSGPACK_ARRAY16, MSGPACK_ARRAY32, MSGPACK_MAP16, MSGPACK_MAP32, be16, be32, be64, encode_uint, encode_int, array_header, map_header, encode_str, encode_bin, encode_nil, encode_bool, encode_f32_bits, encode_f64_bits};

verus! {

fn push_be16(out: &mut Vec<u8>, v: u64)
    requires
        v < 65536,
    ensures
        final(out)@ == old(out)@ + be16(v as int),
{
    out.push((v / 256) as u8);
    out.push((v % 256) as u8);
}

fn push_be32(out: &mut Vec<u8>, v: u64)
    requires
        v < 4294967296,
    ensures
        final(out)@ == old(out)@ + be32(v as int),
{
    push_be16(out, v / 65536);
    push_be16(out, v % 65536);
}

fn push_be64(out: &mut Vec<u8>, v: u64)
    ensures
        final(out)@ == old(out)@ + be64(v as int),
{
    push_be32(out, v / 4294967296);
    push_be32(out, v % 4294967296);
}

fn push_bytes(out: &mut Vec<u8>, bytes: &[u8])
    ensures
        final(out)@ == old(out)@ + bytes@,
{
    let mut i: usize = 0;
    while i < bytes.len()
        invariant
            i <= bytes@.len(),
            out@ == old(out)@ + bytes@.subrange(0, i as int),
        decreases bytes@.len() - i,
    {
        out.push(bytes[i]);
        i = i + 1;
        assert(bytes@.subrange(0, i as int) == bytes@.subrange(0, (i - 1) as int).push(bytes@[i - 1]));
    }
    assert(bytes@.subrange(0, bytes@.len() as int) == bytes@);
}

/// Appends nil.
pub fn write_nil(out: &mut Vec<u8>)
    ensures
        final(out)@ == old(out)@ + encode_nil(),
{
    out.push(MSGPACK_NIL);
}

/// Appends true or false.
pub fn write_bool(out: &mut Vec<u8>, val: bool)
    ensures
        final(out)@ == old(out)@ + encode_bool(val),
{
    if val {
        out.push(MSGPACK_TRUE);
    } else {
        out.push(MSGPACK_FALSE);
    }
}

/// Appends a float 32 whose bits are `bits` (the bits of an `f32`, as
/// `f32::to_bits` gives them).
pub fn write_f32_bits(out: &mut Vec<u8>, bits: u32)
    ensures
        final(out)@ == old(out)@ + encode_f32_bits(bits),
{
    out.push(MSGPACK_FLOAT32);
    push_be32(out, bits as u64);
}

/// Appends a float 64 whose bits are `bits` (the bits of an `f64`, as
/// `f64::to_bits` gives them).
pub fn write_f64_bits(out: &mut Vec<u8>, bits: u64)
    ensures
        final(out)@ == old(out)@ + encode_f64_bits(bits),
{
    out.push(MSGPACK_FLOAT64);
    push_be64(out, bits);
}

/// Appends a byte array: bin 8, bin 16 or bin 32, then the bytes.
pub fn write_bin(out: &mut Vec<u8>, bytes: &[u8])
    ensures
        final(out)@ == old(out)@ + encode_bin(bytes@),
{
    let len = bytes.len();
    if len <= 255 {
        out.push(MSGPACK_BIN8);
        out.push(len as u8);
    } else if len <= 65535 {
        out.push(MSGPACK_BIN16);
        push_be16(out, len as u64);
    } else {
        out.push(MSGPACK_BIN32);
        push_be32(out, (len as u64) % 4294967296);
    }
    push_bytes(out, bytes);
}

/// Appends an array header for `len` items.
pub fn write_array_len(out: &mut Vec<u8>, len: usize)
    ensures
        final(out)@ == old(out)@ + array_header(len as int),
{
    if len <= 15 {
        out.push(0x90 + len as u8);
    } else if len <= 65535 {
        out.push(MSGPACK_ARRAY16);
        push_be16(out, len as u64);
    } else {
        out.push(MSGPACK_ARRAY32);
        push_be32(out, (len as u64) % 4294967296);
    }
}

/// Appends a map header for `len` entries.
pub fn write_map_len(out: &mut Vec<u8>, len: usize)
    ensures
        final(out)@ == old(out)@ + map_header(len as int),
{
    if len <= 15 {
        out.push(0x80 + len as u8);
    } else if len <= 65535 {
        out.push(MSGPACK_MAP16);
        push_be16(out, len as u64);
    } else {
        out.push(MSGPACK_MAP32);
        push_be32(out, (len as u64) % 4294967296);
    }
}

/// Appends a string: fixstr, str 8, str 16 or str 32, then its UTF-8 bytes.
pub fn write_str(out: &mut Vec<u8>, s: &str)
    ensures
        final(out)@ == old(out)@ + encode_str(vstd::utf8::encode_utf8(s@)),
{
    let bytes = s.as_bytes();
    let len = bytes.len();
    if len <= 31 {
        out.push(0xa0 + len as u8);
    } else if len <= 255 {
        out.push(MSGPACK_STR8);
        out.push(len as u8);
    } else if len <= 65535 {
        out.push(MSGPACK_STR16);
        push_be16(out, len as u64);
    } else {
        out.push(MSGPACK_STR32);
        push_be32(out, (len as u64) % 4294967296);
    }
    push_bytes(out, bytes);
}

/// Appends an unsigned 8-bit integer in its shortest encoding.
pub fn write_u8(out: &mut Vec<u8>, n: u8)
    ensures
        final(out)@ == old(out)@ + encode_uint(n as int),
{
    if n <= 127 {
        out.push(n);
    } else {
        out.push(MSGPACK_UINT8);
        out.push(n);
    }
}

/// Appends an unsigned 16-bit integer in its shortest encoding.
pub fn write_u16(out: &mut Vec<u8>, n: u16)
    ensures
        final(out)@ == old(out)@ + encode_uint(n as int),
{
    if n <= 127 {
        out.push(n as u8);
    } else if n <= 255 {
        out.push(MSGPACK_UINT8);
        out.push(n as u8);
    } else {
        out.push(MSGPACK_UINT16);
        push_be16(out, n as u64);
    }
}

/// Appends an unsigned 32-bit integer in its shortest encoding.
pub fn write_u32(out: &mut Vec<u8>, n: u32)
    ensures
        final(out)@ == old(out)@ + encode_uint(n as int),
{
    if n <= 127 {
        out.push(n as u8);
    } else if n <= 255 {
        out.push(MSGPACK_UINT8);
        out.push(n as u8);
    } else if n <= 65535 {
        out.push(MSGPACK_UINT16);
        push_be16(out, n as u64);
    } else {
        out.push(MSGPACK_UINT32);
        push_be32(out, n as u64);
    }
}

/// Appends an unsigned 64-bit integer in its shortest encoding.
pub fn write_u64(out: &mut Vec<u8>, n: u64)
    ensures
        final(out)@ == old(out)@ + encode_uint(n as int),
{
    if n <= 127 {
        out.push(n as u8);
    } else if n <= 255 {
        out.push(MSGPACK_UINT8);
        out.push(n as u8);
    } else if n <= 65535 {
        out.push(MSGPACK_UINT16);
        push_be16(out, n);
    } else if n <= 4294967295 {
        out.push(MSGPACK_UINT32);
        push_be32(out, n);
    } else {
        out.push(MSGPACK_UINT64);
        push_be64(out, n);
    }
}

/// Appends a signed 8-bit integer in its shortest encoding.
pub fn write_i8(out: &mut Vec<u8>, n: i8)
    ensures
        final(out)@ == old(out)@ + encode_int(n as int),
{
    if n >= 0 {
        write_u8(out, n as u8);
    } else if n >= -32 {
        out.push((n as i16 + 256) as u8);
    } else {
        out.push(MSGPACK_INT8);
        out.push((n as i16 + 256) as u8);
    }
}

/// Appends a signed 16-bit integer in its shortest encoding.
pub fn write_i16(out: &mut Vec<u8>, n: i16)
    ensures
        final(out)@ == old(out)@ + encode_int(n as int),
{
    if n >= 0 {
        write_u16(out, n as u16);
    } else if n >= -32 {
        out.push((n as i32 + 256) as u8);
    } else if n >= -128 {
        out.push(MSGPACK_INT8);
        out.push((n as i32 + 256) as u8);
    } else {
        out.push(MSGPACK_INT16);
        push_be16(out, (n as i32 + 65536) as u64);
    }
}

/// Appends a signed 32-bit integer in its shortest encoding.
pub fn write_i32(out: &mut Vec<u8>, n: i32)
    ensures
        final(out)@ == old(out)@ + encode_int(n as int),
{
    if n >= 0 {
        write_u32(out, n as u32);
    } else if n >= -32 {
        out.push((n as i64 + 256) as u8);
    } else if n >= -128 {
        out.push(MSGPACK_INT8);
        out.push((n as i64 + 256) as u8);
    } else if n >= -32768 {
        out.push(MSGPACK_INT16);
        push_be16(out, (n as i64 + 65536) as u64);
    } else {
        out.push(MSGPACK_INT32);
        push_be32(out, (n as i64 + 4294967296) as u64);
    }
}

/// Appends a signed 64-bit integer in its shortest encoding.
pub fn write_i64(out: &mut Vec<u8>, n: i64)
    ensures
        final(out)@ == old(out)@ + encode_int(n as int),
{
    if n >= 0 {
        write_u64(out, n as u64);
    } else if n >= -32 {
        out.push((n + 256) as u8);
    } else if n >= -128 {
        out.push(MSGPACK_INT8);
        out.push((n + 256) as u8);
    } else if n >= -32768 {
        out.push(MSGPACK_INT16);
        push_be16(out, (n + 65536) as u64);
    } else if n >= -2147483648 {
        out.push(MSGPACK_INT32);
        push_be32(out, (n + 4294967296) as u64);
    } else {
        out.push(MSGPACK_INT64);
        push_be64(out, (n as i128 + 18446744073709551616i128) as u64);
    }
}


/// Writes the MessagePack form of values, one call per value or container
/// boundary, into a buffer.
pub struct MessagePackSerializer {
    /// The bytes written so far
    pub buffer: Vec<u8>,
}

impl MessagePackSerializer {
    /// A serializer with an empty buffer.
    pub fn new() -> (r: Self)
        ensures
            r.buffer@ == Seq::<u8>::empty(),
    {
        MessagePackSerializer { buffer: Vec::new() }
    }

    /// Hands out the bytes written so far and empties the buffer.
    pub fn take_bytes(&mut self) -> (r: Vec<u8>)
        ensures
            r@ == old(self).buffer@,
            final(self).buffer@ == Seq::<u8>::empty(),
    {
        let mut out: Vec<u8> = Vec::new();
        std::mem::swap(&mut out, &mut self.buffer);
        out
    }

    /// A `u8`.
    pub fn serialize_u8(&mut self, value: u8) -> (r: Result<(), EncodeError>)
        ensures
            r is Ok,
            final(self).buffer@ == old(self).buffer@ + encode_uint(value as int),
    {
        write_u8(&mut self.buffer, value);
        Ok(())
    }

    /// A `u16`.
    pub fn serialize_u16(&mut self, value: u16) -> (r: Result<(), EncodeError>)
        ensures
            r is Ok,
            final(self).buffer@ == old(self).buffer@ + encode_uint(value as int),
    {
        write_u16(&mut self.buffer, value);
        Ok(())
    }

    /// A `u32`.
    pub fn serialize_u32(&mut self, value: u32) -> (r: Result<(), EncodeError>)
        ensures
            r is Ok,
            final(self).buffer@ == old(self).buffer@ + encode_uint(value as int),
    {
        write_u32(&mut self.buffer, value);
        Ok(())
    }

    /// A `u64`.
    pub fn serialize_u64(&mut self, value: u64) -> (r: Result<(), EncodeError>)
        ensures
            r is Ok,
            final(self).buffer@ == old(self).buffer@ + encode_uint(value as int),
    {
        write_u64(&mut self.buffer, value);
        Ok(())
    }

    /// A `u128`: MessagePack has no format for it, so nothing is written.
    pub fn serialize_u128(&mut self, _value: u128) -> (r: Result<(), EncodeError>)
        ensures
            r == Err::<(), EncodeError>(EncodeError::U128NotSupported),
            final(self).buffer@ == old(self).buffer@,
    {
        Err(EncodeError::U128NotSupported)
    }

    /// A `usize`, written as the same number in a `u64`.
    pub fn serialize_usize(&mut self, value: usize) -> (r: Result<(), EncodeError>)
        ensures
            r is Ok,
            final(self).buffer@ == old(self).buffer@ + encode_uint(value as int),
    {
        write_u64(&mut self.buffer, value as u64);
        Ok(())
    }

    /// An `i8`.
    pub fn serialize_i8(&mut self, value: i8) -> (r: Result<(), EncodeError>)
        ensures
            r is Ok,
            final(self).buffer@ == old(self).buffer@ + encode_int(value as int),
    {
        write_i8(&mut self.buffer, value);
        Ok(())
    }

    /// An `i16`.
    pub fn serialize_i16(&mut self, value: i16) -> (r: Result<(), EncodeError>)
        ensures
            r is Ok,
            final(self).buffer@ == old(self).buffer@ + encode_int(value as int),
    {
        write_i16(&mut self.buffer, value);
        Ok(())
    }

    /// An `i32`.
    pub fn serialize_i32(&mut self, value: i32) -> (r: Result<(), EncodeError>)
        ensures
            r is Ok,
            final(self).buffer@ == old(self).buffer@ + encode_int(value as int),
    {
        write_i32(&mut self.buffer, value);
        Ok(())
    }

    /// An `i64`.
    pub fn serialize_i64(&mut self, value: i64) -> (r: Result<(), EncodeError>)
        ensures
            r is Ok,
            final(self).buffer@ == old(self).buffer@ + encode_int(value as int),
    {
        write_i64(&mut self.buffer, value);
        Ok(())
    }

    /// An `i128`: MessagePack has no format for it, so nothing is written.
    pub fn serialize_i128(&mut self, _value: i128) -> (r: Result<(), EncodeError>)
        ensures
            r == Err::<(), EncodeError>(EncodeError::I128NotSupported),
            final(self).buffer@ == old(self).buffer@,
    {
        Err(EncodeError::I128NotSupported)
    }

    /// An `isize`, written as the same number in an `i64`.
    pub fn serialize_isize(&mut self, value: isize) -> (r: Result<(), EncodeError>)
        ensures
            r is Ok,
            final(self).buffer@ == old(self).buffer@ + encode_int(value as int),
    {
        write_i64(&mut self.buffer, value as i64);
        Ok(())
    }

    /// An `f32`, given by its bits.
    pub fn serialize_f32_bits(&mut self, bits: u32) -> (r: Result<(), EncodeError>)
        ensures
            r is Ok,
            final(self).buffer@ == old(self).buffer@ + encode_f32_bits(bits),
    {
        write_f32_bits(&mut self.buffer, bits);
        Ok(())
    }

    /// An `f64`, given by its bits.
    pub fn serialize_f64_bits(&mut self, bits: u64) -> (r: Result<(), EncodeError>)
        ensures
            r is Ok,
            final(self).buffer@ == old(self).buffer@ + encode_f64_bits(bits),
    {
        write_f64_bits(&mut self.buffer, bits);
        Ok(())
    }

    /// A `bool`.
    pub fn serialize_bool(&mut self, value: bool) -> (r: Result<(), EncodeError>)
        ensures
            r is Ok,
            final(self).buffer@ == old(self).buffer@ + encode_bool(value),
    {
        write_bool(&mut self.buffer, value);
        Ok(())
    }

    /// A `char`, written as the string of that one character.
    pub fn serialize_char(&mut self, value: char) -> (r: Result<(), EncodeError>)
        ensures
            r is Ok,
            final(self).buffer@ == old(self).buffer@ + encode_str(vstd::utf8::encode_utf8(seq![value])),
    {
        let mut s = String::new();
        string_push(&mut s, value);
        write_str(&mut self.buffer, s.as_str());
        Ok(())
    }

    /// A string.
    pub fn serialize_str(&mut self, value: &str) -> (r: Result<(), EncodeError>)
        ensures
            r is Ok,
            final(self).buffer@ == old(self).buffer@ + encode_str(vstd::utf8::encode_utf8(value@)),
    {
        write_str(&mut self.buffer, value);
        Ok(())
    }

    /// A byte array.
    pub fn serialize_bytes(&mut self, value: &[u8]) -> (r: Result<(), EncodeError>)
        ensures
            r is Ok,
            final(self).buffer@ == old(self).buffer@ + encode_bin(value@),
    {
        write_bin(&mut self.buffer, value);
        Ok(())
    }

    /// An absent option, written as nil.
    pub fn serialize_none(&mut self) -> (r: Result<(), EncodeError>)
        ensures
            r is Ok,
            final(self).buffer@ == old(self).buffer@ + encode_nil(),
    {
        write_nil(&mut self.buffer);
        Ok(())
    }

    /// The unit value, written as nil.
    pub fn serialize_unit(&mut self) -> (r: Result<(), EncodeError>)
        ensures
            r is Ok,
            final(self).buffer@ == old(self).buffer@ + encode_nil(),
    {
        write_nil(&mut self.buffer);
        Ok(())
    }

    /// A unit variant, written as its name.
    pub fn serialize_unit_variant(&mut self, _variant_index: usize, variant_name: &str) -> (r: Result<(), EncodeError>)
        ensures
            r is Ok,
            final(self).buffer@ == old(self).buffer@ + encode_str(vstd::utf8::encode_utf8(variant_name@)),
    {
        write_str(&mut self.buffer, variant_name);
        Ok(())
    }

    /// The start of an object of `len` fields: a map header. MessagePack
    /// needs the length up front.
    pub fn start_object(&mut self, len: Option<usize>) -> (r: Result<(), EncodeError>)
        ensures
            match len {
                Some(l) => r is Ok && final(self).buffer@ == old(self).buffer@ + map_header(l as int),
                None => r == Err::<(), EncodeError>(EncodeError::MapLengthRequired)
                    && final(self).buffer@ == old(self).buffer@,
            },
    {
        match len {
            Some(l) => {
                write_map_len(&mut self.buffer, l);
                Ok(())
            },
            None => Err(EncodeError::MapLengthRequired),
        }
    }

    /// The end of an object: nothing to write.
    pub fn end_object(&mut self) -> (r: Result<(), EncodeError>)
        ensures
            r is Ok,
            final(self).buffer@ == old(self).buffer@,
    {
        Ok(())
    }

    /// The start of an array of `len` items: an array header. MessagePack
    /// needs the length up front.
    pub fn start_array(&mut self, len: Option<usize>) -> (r: Result<(), EncodeError>)
        ensures
            match len {
                Some(l) => r is Ok && final(self).buffer@ == old(self).buffer@ + array_header(l as int),
                None => r == Err::<(), EncodeError>(EncodeError::ArrayLengthRequired)
                    && final(self).buffer@ == old(self).buffer@,
            },
    {
        match len {
            Some(l) => {
                write_array_len(&mut self.buffer, l);
                Ok(())
            },
            None => Err(EncodeError::ArrayLengthRequired),
        }
    }

    /// The end of an array: nothing to write.
    pub fn end_array(&mut self) -> (r: Result<(), EncodeError>)
        ensures
            r is Ok,
            final(self).buffer@ == old(self).buffer@,
    {
        Ok(())
    }

    /// The start of a map of `len` entries: a map header. MessagePack needs
    /// the length up front.
    pub fn start_map(&mut self, len: Option<usize>) -> (r: Result<(), EncodeError>)
        ensures
            match len {
                Some(l) => r is Ok && final(self).buffer@ == old(self).buffer@ + map_header(l as int),
                None => r == Err::<(), EncodeError>(EncodeError::MapLengthRequired)
                    && final(self).buffer@ == old(self).buffer@,
            },
    {
        match len {
            Some(l) => {
                write_map_len(&mut self.buffer, l);
                Ok(())
            },
            None => Err(EncodeError::MapLengthRequired),
        }
    }

    /// The end of a map: nothing to write.
    pub fn end_map(&mut self) -> (r: Result<(), EncodeError>)
        ensures
            r is Ok,
            final(self).buffer@ == old(self).buffer@,
    {
        Ok(())
    }

    /// A field name, written as a string key.
    pub fn serialize_field_name(&mut self, name: &str) -> (r: Result<(), EncodeError>)
        ensures
            r is Ok,
            final(self).buffer@ == old(self).buffer@ + encode_str(vstd::utf8::encode_utf8(name@)),
    {
        write_str(&mut self.buffer, name);
        Ok(())
    }
}

} // verus!
