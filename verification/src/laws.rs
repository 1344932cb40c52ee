//! What reading gives back of what writing wrote: each encoding, found at
//! any offset of any input, decodes to the value encoded and leaves the
//! offset just past it.
use vstd::prelude::*;
use crate::format::{
    be16, be32, be64, read_be16, read_be32, read_be64, encode_uint, encode_int, encode_str,
    encode_bool, encode_nil, encode_f32_bits, encode_f64_bits, map_header, array_header,
    str_header, encode_bin, bin_header,
};
use crate::decode::{
    dec_byte, dec_be16, dec_be32, dec_be64, dec_uint, dec_int, dec_str, dec_str_len, dec_bool,
    dec_nil, dec_map_len, dec_array_len, dec_f32_bits, dec_f64_bits, skip_value, skip_many, lemma_skip_value,
};

verus! {

/// `enc` stands in `s` at `off`.
pub open spec fn holds_at(s: Seq<u8>, off: int, enc: Seq<u8>) -> bool {
    0 <= off && off + enc.len() <= s.len() && s.subrange(off, off + enc.len()) == enc
}

pub(crate) proof fn lemma_byte_at(s: Seq<u8>, off: int, enc: Seq<u8>, k: int)
    requires
        holds_at(s, off, enc),
        0 <= k < enc.len(),
    ensures
        s[off + k] == enc[k],
{
    assert(s.subrange(off, off + enc.len())[k] == s[off + k]);
}

pub(crate) proof fn lemma_tail(s: Seq<u8>, off: int, a: Seq<u8>, b: Seq<u8>)
    requires
        holds_at(s, off, a + b),
    ensures
        holds_at(s, off, a),
        holds_at(s, off + a.len(), b),
{
    let w = s.subrange(off, off + (a + b).len());
    assert(s.subrange(off, off + a.len()) =~= a) by {
        assert forall|k: int| 0 <= k < a.len() implies #[trigger] s.subrange(off, off + a.len())[k] == a[k] by {
            assert(w[k] == (a + b)[k]);
        }
    }
    assert(s.subrange(off + a.len(), off + a.len() + b.len()) =~= b) by {
        assert forall|k: int| 0 <= k < b.len() implies #[trigger] s.subrange(off + a.len(), off + a.len() + b.len())[k] == b[k] by {
            assert(w[a.len() + k] == (a + b)[a.len() + k]);
        }
    }
}

proof fn lemma_be16(s: Seq<u8>, off: int, n: int)
    requires
        0 <= n < 65536,
        holds_at(s, off, be16(n)),
    ensures
        read_be16(s, off) == n,
        dec_be16(s, off) == (Ok::<u16, crate::errors::ErrorView>(n as u16), off + 2),
{
    lemma_byte_at(s, off, be16(n), 0);
    lemma_byte_at(s, off, be16(n), 1);
}

proof fn lemma_be32(s: Seq<u8>, off: int, n: int)
    requires
        0 <= n < 4294967296,
        holds_at(s, off, be32(n)),
    ensures
        read_be32(s, off) == n,
        dec_be32(s, off) == (Ok::<u32, crate::errors::ErrorView>(n as u32), off + 4),
{
    lemma_tail(s, off, be16(n / 65536), be16(n % 65536));
    lemma_be16(s, off, n / 65536);
    lemma_be16(s, off + 2, n % 65536);
}

proof fn lemma_be64(s: Seq<u8>, off: int, n: int)
    requires
        0 <= n < 18446744073709551616,
        holds_at(s, off, be64(n)),
    ensures
        read_be64(s, off) == n,
        dec_be64(s, off) == (Ok::<u64, crate::errors::ErrorView>(n as u64), off + 8),
{
    lemma_tail(s, off, be32(n / 4294967296), be32(n % 4294967296));
    lemma_be32(s, off, n / 4294967296);
    lemma_be32(s, off + 4, n % 4294967296);
}

/// An unsigned integer written by `write_u8` to `write_u64` reads back as
/// itself, with the offset just past its encoding.
pub proof fn law_uint_roundtrip(s: Seq<u8>, off: int, n: u64)
    requires
        holds_at(s, off, encode_uint(n as int)),
    ensures
        dec_uint(s, off) == (Ok::<u64, crate::errors::ErrorView>(n), off + encode_uint(n as int).len()),
{
    let e = encode_uint(n as int);
    lemma_byte_at(s, off, e, 0);
    if n <= 127 {
    } else if n <= 255 {
        lemma_byte_at(s, off, e, 1);
    } else if n <= 65535 {
        lemma_tail(s, off, seq![0xcdu8], be16(n as int));
        lemma_be16(s, off + 1, n as int);
    } else if n <= 4294967295 {
        lemma_tail(s, off, seq![0xceu8], be32(n as int));
        lemma_be32(s, off + 1, n as int);
    } else {
        lemma_tail(s, off, seq![0xcfu8], be64(n as int));
        lemma_be64(s, off + 1, n as int);
    }
}

/// A signed integer written by `write_i8` to `write_i64` reads back as
/// itself.
pub proof fn law_int_roundtrip(s: Seq<u8>, off: int, n: i64)
    requires
        holds_at(s, off, encode_int(n as int)),
    ensures
        dec_int(s, off) == (Ok::<i64, crate::errors::ErrorView>(n), off + encode_int(n as int).len()),
{
    let e = encode_int(n as int);
    lemma_byte_at(s, off, e, 0);
    if n >= 0 {
        if n <= 127 {
        } else if n <= 255 {
            lemma_byte_at(s, off, e, 1);
        } else if n <= 65535 {
            lemma_tail(s, off, seq![0xcdu8], be16(n as int));
            lemma_be16(s, off + 1, n as int);
        } else if n <= 4294967295 {
            lemma_tail(s, off, seq![0xceu8], be32(n as int));
            lemma_be32(s, off + 1, n as int);
        } else {
            lemma_tail(s, off, seq![0xcfu8], be64(n as int));
            lemma_be64(s, off + 1, n as int);
        }
    } else if n >= -32 {
    } else if n >= -128 {
        lemma_byte_at(s, off, e, 1);
    } else if n >= -32768 {
        lemma_tail(s, off, seq![0xd1u8], be16(n + 65536));
        lemma_be16(s, off + 1, n + 65536);
    } else if n >= -2147483648 {
        lemma_tail(s, off, seq![0xd2u8], be32(n + 4294967296));
        lemma_be32(s, off + 1, n + 4294967296);
    } else {
        lemma_tail(s, off, seq![0xd3u8], be64(n + 18446744073709551616));
        lemma_be64(s, off + 1, n + 18446744073709551616);
    }
}


proof fn lemma_len_header(s: Seq<u8>, off: int, hdr: Seq<u8>, len: int, fix_base: u8, fix_max: int, m8: u8, m16: u8, m32: u8)
    requires
        0 <= len <= 4294967295,
        holds_at(s, off, hdr),
        hdr == (if len <= fix_max {
            seq![(fix_base + len) as u8]
        } else if len <= 255 && m8 != 0 {
            seq![m8, len as u8]
        } else if len <= 65535 {
            seq![m16] + be16(len)
        } else {
            seq![m32] + be32(len % 4294967296)
        }),
    ensures
        s[off] == hdr[0],
        len > fix_max && len <= 255 && m8 != 0 ==> s[off + 1] == len,
        len > fix_max && (len > 255 || m8 == 0) && len <= 65535 ==> dec_be16(s, off + 1) == (Ok::<u16, crate::errors::ErrorView>(len as u16), off + 3),
        len > 65535 && len > fix_max ==> dec_be32(s, off + 1) == (Ok::<u32, crate::errors::ErrorView>(len as u32), off + 5),
{
    lemma_byte_at(s, off, hdr, 0);
    if len <= fix_max {
    } else if len <= 255 && m8 != 0 {
        lemma_byte_at(s, off, hdr, 1);
    } else if len <= 65535 {
        lemma_tail(s, off, seq![m16], be16(len));
        lemma_be16(s, off + 1, len);
    } else {
        lemma_tail(s, off, seq![m32], be32(len % 4294967296));
        lemma_be32(s, off + 1, len);
    }
}

/// A map header written by `write_map_len` reads back as the same length
/// (for lengths that fit the format's 32 bits).
pub proof fn law_map_len_roundtrip(s: Seq<u8>, off: int, len: u64)
    requires
        len <= 4294967295,
        holds_at(s, off, map_header(len as int)),
    ensures
        dec_map_len(s, off) == (Ok::<u64, crate::errors::ErrorView>(len), off + map_header(len as int).len()),
{
    lemma_len_header(s, off, map_header(len as int), len as int, 0x80, 15, 0, 0xde, 0xdf);
}

/// An array header written by `write_array_len` reads back as the same
/// length (for lengths that fit the format's 32 bits).
pub proof fn law_array_len_roundtrip(s: Seq<u8>, off: int, len: u64)
    requires
        len <= 4294967295,
        holds_at(s, off, array_header(len as int)),
    ensures
        dec_array_len(s, off) == (Ok::<u64, crate::errors::ErrorView>(len), off + array_header(len as int).len()),
{
    lemma_len_header(s, off, array_header(len as int), len as int, 0x90, 15, 0, 0xdc, 0xdd);
}

proof fn lemma_str_len(s: Seq<u8>, off: int, len: int)
    requires
        0 <= len <= 4294967295,
        holds_at(s, off, str_header(len)),
    ensures
        dec_str_len(s, off) == (Ok::<u64, crate::errors::ErrorView>(len as u64), off + str_header(len).len()),
{
    lemma_len_header(s, off, str_header(len), len, 0xa0, 31, 0xd9, 0xda, 0xdb);
}

/// A string written by `write_str` reads back as the same characters (for
/// strings whose UTF-8 form fits the format's 32-bit length).
pub proof fn law_str_roundtrip(s: Seq<u8>, off: int, text: Seq<char>)
    requires
        vstd::utf8::encode_utf8(text).len() <= 4294967295,
        holds_at(s, off, encode_str(vstd::utf8::encode_utf8(text))),
    ensures
        dec_str(s, off) == (Ok::<Seq<char>, crate::errors::ErrorView>(text), off + encode_str(vstd::utf8::encode_utf8(text)).len()),
{
    let bytes = vstd::utf8::encode_utf8(text);
    let hdr = str_header(bytes.len() as int);
    lemma_tail(s, off, hdr, bytes);
    lemma_str_len(s, off, bytes.len() as int);
    let o = off + hdr.len();
    assert(s.subrange(o, o + bytes.len()) == bytes);
    vstd::utf8::encode_utf8_valid_utf8(text);
    vstd::utf8::encode_utf8_decode_utf8(text);
}

/// A boolean written by `write_bool` reads back as itself.
pub proof fn law_bool_roundtrip(s: Seq<u8>, off: int, b: bool)
    requires
        holds_at(s, off, encode_bool(b)),
    ensures
        dec_bool(s, off) == (Ok::<bool, crate::errors::ErrorView>(b), off + 1),
{
    lemma_byte_at(s, off, encode_bool(b), 0);
}

/// nil written by `write_nil` reads back as nil.
pub proof fn law_nil_roundtrip(s: Seq<u8>, off: int)
    requires
        holds_at(s, off, encode_nil()),
    ensures
        dec_nil(s, off) == (Ok::<(), crate::errors::ErrorView>(()), off + 1),
{
    lemma_byte_at(s, off, encode_nil(), 0);
}

/// The bits of a float 32 written by `write_f32_bits` read back unchanged.
pub proof fn law_f32_roundtrip(s: Seq<u8>, off: int, bits: u32)
    requires
        holds_at(s, off, encode_f32_bits(bits)),
    ensures
        dec_f32_bits(s, off) == (Ok::<u32, crate::errors::ErrorView>(bits), off + 5),
{
    lemma_byte_at(s, off, encode_f32_bits(bits), 0);
    lemma_tail(s, off, seq![0xcau8], be32(bits as int));
    lemma_be32(s, off + 1, bits as int);
}

/// The bits of a float 64 written by `write_f64_bits` read back unchanged.
pub proof fn law_f64_roundtrip(s: Seq<u8>, off: int, bits: u64)
    requires
        holds_at(s, off, encode_f64_bits(bits)),
    ensures
        dec_f64_bits(s, off) == (Ok::<u64, crate::errors::ErrorView>(bits), off + 9),
{
    lemma_byte_at(s, off, encode_f64_bits(bits), 0);
    lemma_tail(s, off, seq![0xcbu8], be64(bits as int));
    lemma_be64(s, off + 1, bits as int);
}

/// Skipping passes over exactly one integer as `write_i64` (or any other
/// integer writer) wrote it.
pub proof fn law_skip_int(s: Seq<u8>, off: int, n: i64)
    requires
        holds_at(s, off, encode_int(n as int)),
    ensures
        skip_value(s, off) == (Ok::<(), crate::errors::ErrorView>(()), off + encode_int(n as int).len()),
{
    lemma_byte_at(s, off, encode_int(n as int), 0);
}

/// Skipping passes over exactly one unsigned integer as `write_u64` wrote it.
pub proof fn law_skip_uint(s: Seq<u8>, off: int, n: u64)
    requires
        holds_at(s, off, encode_uint(n as int)),
    ensures
        skip_value(s, off) == (Ok::<(), crate::errors::ErrorView>(()), off + encode_uint(n as int).len()),
{
    lemma_byte_at(s, off, encode_uint(n as int), 0);
}

/// Skipping passes over exactly one string as `write_str` wrote it.
pub proof fn law_skip_str(s: Seq<u8>, off: int, bytes: Seq<u8>)
    requires
        bytes.len() <= 4294967295,
        holds_at(s, off, encode_str(bytes)),
    ensures
        skip_value(s, off) == (Ok::<(), crate::errors::ErrorView>(()), off + encode_str(bytes).len()),
{
    let hdr = str_header(bytes.len() as int);
    lemma_tail(s, off, hdr, bytes);
    lemma_len_header(s, off, hdr, bytes.len() as int, 0xa0, 31, 0xd9, 0xda, 0xdb);
}

/// Skipping passes over exactly one byte array as `write_bin` wrote it.
pub proof fn law_skip_bin(s: Seq<u8>, off: int, bytes: Seq<u8>)
    requires
        bytes.len() <= 4294967295,
        holds_at(s, off, encode_bin(bytes)),
    ensures
        skip_value(s, off) == (Ok::<(), crate::errors::ErrorView>(()), off + encode_bin(bytes).len()),
{
    let hdr = bin_header(bytes.len() as int);
    lemma_tail(s, off, hdr, bytes);
    lemma_len_header(s, off, hdr, bytes.len() as int, 0, -1, 0xc4, 0xc5, 0xc6);
}

/// Skipping passes over exactly one boolean, nil or float.
pub proof fn law_skip_fixed(s: Seq<u8>, off: int, b: bool, bits32: u32, bits64: u64)
    ensures
        holds_at(s, off, encode_bool(b)) ==> skip_value(s, off) == (Ok::<(), crate::errors::ErrorView>(()), off + 1),
        holds_at(s, off, encode_nil()) ==> skip_value(s, off) == (Ok::<(), crate::errors::ErrorView>(()), off + 1),
        holds_at(s, off, encode_f32_bits(bits32)) ==> skip_value(s, off) == (Ok::<(), crate::errors::ErrorView>(()), off + 5),
        holds_at(s, off, encode_f64_bits(bits64)) ==> skip_value(s, off) == (Ok::<(), crate::errors::ErrorView>(()), off + 9),
{
    if holds_at(s, off, encode_bool(b)) {
        lemma_byte_at(s, off, encode_bool(b), 0);
    }
    if holds_at(s, off, encode_nil()) {
        lemma_byte_at(s, off, encode_nil(), 0);
    }
    if holds_at(s, off, encode_f32_bits(bits32)) {
        lemma_byte_at(s, off, encode_f32_bits(bits32), 0);
    }
    if holds_at(s, off, encode_f64_bits(bits64)) {
        lemma_byte_at(s, off, encode_f64_bits(bits64), 0);
    }
}

proof fn lemma_skip_run(s: Seq<u8>, ends: Seq<int>, k: int, n: int)
    requires
        0 <= k <= n,
        ends.len() == n + 1,
        forall|i: int| 0 <= i < n ==> #[trigger] skip_value(s, ends[i]) == (Ok::<(), crate::errors::ErrorView>(()), ends[i + 1]),
    ensures
        skip_many(s, ends[k], n - k) == (Ok::<(), crate::errors::ErrorView>(()), ends[n]),
    decreases n - k,
{
    if k < n {
        assert(skip_value(s, ends[k]) == (Ok::<(), crate::errors::ErrorView>(()), ends[k + 1]));
        if ends[k] <= s.len() {
            lemma_skip_value(s, ends[k]);
        }
        lemma_skip_run(s, ends, k + 1, n);
        assert(ends[k] < s.len() && ends[k + 1] > ends[k]);
    }
}

/// Skipping passes over exactly one array as `write_array_len` and its
/// items wrote it: a header of `n` items (in any of the three array
/// formats), then `n` complete values one after the other (the value at
/// `ends[i]` ending at `ends[i + 1]`), is skipped whole, ending just after
/// the last value.
pub proof fn law_skip_array(s: Seq<u8>, off: int, n: u64, ends: Seq<int>)
    requires
        n <= 4294967295,
        holds_at(s, off, array_header(n as int)),
        ends.len() == n + 1,
        ends[0] == off + array_header(n as int).len(),
        forall|i: int| 0 <= i < n ==> #[trigger] skip_value(s, ends[i]) == (Ok::<(), crate::errors::ErrorView>(()), ends[i + 1]),
    ensures
        skip_value(s, off) == (Ok::<(), crate::errors::ErrorView>(()), ends[n as int]),
{
    lemma_len_header(s, off, array_header(n as int), n as int, 0x90, 15, 0, 0xdc, 0xdd);
    lemma_skip_run(s, ends, 0, n as int);
    assert(off < s.len());
}

/// Skipping passes over exactly one map as `write_map_len` and its
/// entries wrote it: a header of `n` entries (in any of the three map
/// formats), then `2 * n` complete values, keys and values in turn (the
/// value at `ends[i]` ending at `ends[i + 1]`), is skipped whole, ending
/// just after the last value.
pub proof fn law_skip_map(s: Seq<u8>, off: int, n: u64, ends: Seq<int>)
    requires
        n <= 4294967295,
        holds_at(s, off, map_header(n as int)),
        ends.len() == 2 * n + 1,
        ends[0] == off + map_header(n as int).len(),
        forall|i: int| 0 <= i < 2 * n ==> #[trigger] skip_value(s, ends[i]) == (Ok::<(), crate::errors::ErrorView>(()), ends[i + 1]),
    ensures
        skip_value(s, off) == (Ok::<(), crate::errors::ErrorView>(()), ends[2 * n]),
{
    lemma_len_header(s, off, map_header(n as int), n as int, 0x80, 15, 0, 0xde, 0xdf);
    lemma_skip_run(s, ends, 0, 2 * n);
    assert(off < s.len());
}

} // verus!
