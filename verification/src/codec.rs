//! Little-endian integers and length-prefixed strings, written and read with bincode's
//! default fixed-width encoding, as the file formats of this crate use them.
use vstd::prelude::*;
use vstd::utf8::{
    decode_utf8, encode_scalar, encode_utf8, last_continuation_byte, leading_byte_width_1, leading_byte_width_2,
    leading_byte_width_3, leading_byte_width_4, second_last_continuation_byte, third_last_continuation_byte,
    valid_utf8,
};
use vstd::string::StringSliceAdditionalSpecFns;

verus! {

#[verifier::external_type_specification]
#[verifier::external_body]
pub struct ExBincodeErrorKind(bincode::ErrorKind);

/// The message of a bincode error: `ToString` (by `Display`) of `bincode::ErrorKind`.
/// Nothing is stated of the text, which is bincode's own and depends on what the error
/// carries, an I/O error of std among them.
#[verifier::external_body]
pub(crate) fn bincode_error_message(e: &Box<bincode::ErrorKind>) -> String {
    e.to_string()
}

/// `256` to the power `n`.
pub open spec fn pow256(n: nat) -> nat
    decreases n,
{
    if n == 0 {
        1
    } else {
        256 * pow256((n - 1) as nat)
    }
}

/// The `n` low bytes of `v`, least significant first.
pub open spec fn le_bytes(v: nat, n: nat) -> Seq<u8>
    decreases n,
{
    if n == 0 {
        Seq::empty()
    } else {
        seq![(v % 256) as u8] + le_bytes(v / 256, (n - 1) as nat)
    }
}

/// The number that the bytes `b` stand for, least significant first.
pub open spec fn le_value(b: Seq<u8>) -> nat
    decreases b.len(),
{
    if b.len() == 0 {
        0
    } else {
        b[0] as nat + 256 * le_value(b.drop_first())
    }
}

/// The 64-bit two's complement number that eight bytes stand for.
pub open spec fn le_i64(b: Seq<u8>) -> int {
    if le_value(b) < 0x8000_0000_0000_0000 {
        le_value(b) as int
    } else {
        le_value(b) - 0x1_0000_0000_0000_0000
    }
}

/// The eight bytes of a 64-bit signed number in two's complement.
pub open spec fn i64_bytes(v: i64) -> Seq<u8> {
    if v >= 0 {
        le_bytes(v as nat, 8)
    } else {
        le_bytes((v + 0x1_0000_0000_0000_0000) as nat, 8)
    }
}

/// A string as bincode writes it: the length of its UTF-8 bytes as eight bytes, then the bytes.
pub open spec fn string_bytes(s: Seq<char>) -> Seq<u8> {
    le_bytes(encode_utf8(s).len(), 8) + encode_utf8(s)
}

/// Whether bincode reads a string at the start of `b`: a length that fits in `usize`,
/// at least that many bytes after it, and valid UTF-8 in them.
pub open spec fn reads_string(b: Seq<u8>) -> bool {
    &&& b.len() >= 8
    &&& le_value(b.take(8)) <= usize::MAX
    &&& b.len() - 8 >= le_value(b.take(8))
    &&& valid_utf8(b.subrange(8, 8 + le_value(b.take(8)) as int))
}

/// The number of bytes that a string read at the start of `b` takes up.
pub open spec fn string_len(b: Seq<u8>) -> nat {
    8 + le_value(b.take(8))
}

/// The characters of the string read at the start of `b`.
pub open spec fn read_string_value(b: Seq<u8>) -> Seq<char> {
    decode_utf8(b.subrange(8, 8 + le_value(b.take(8)) as int))
}

pub proof fn lemma_pow256_positive(n: nat)
    ensures
        pow256(n) > 0,
    decreases n,
{
    if n > 0 {
        lemma_pow256_positive((n - 1) as nat);
    }
}

pub proof fn lemma_le_bytes(v: nat, n: nat)
    ensures
        le_bytes(v, n).len() == n,
        le_value(le_bytes(v, n)) == v % pow256(n),
    decreases n,
{
    if n == 0 {
        assert(le_bytes(v, n) =~= Seq::<u8>::empty());
    } else {
        lemma_le_bytes(v / 256, (n - 1) as nat);
        let s = le_bytes(v, n);
        assert(s.drop_first() =~= le_bytes(v / 256, (n - 1) as nat));
        lemma_pow256_positive((n - 1) as nat);
        vstd::arithmetic::div_mod::lemma_mod_breakdown(v as int, 256, pow256((n - 1) as nat) as int);
    }
}

pub proof fn lemma_le_value_bound(b: Seq<u8>)
    ensures
        le_value(b) < pow256(b.len()),
    decreases b.len(),
{
    if b.len() > 0 {
        lemma_le_value_bound(b.drop_first());
        assert(le_value(b) <= 255 + 256 * (pow256((b.len() - 1) as nat) - 1)) by (nonlinear_arith)
            requires
                le_value(b) == b[0] as nat + 256 * le_value(b.drop_first()),
                le_value(b.drop_first()) < pow256((b.len() - 1) as nat),
                b[0] <= 255,
        ;
    }
}

/// Writing `v` as `n` bytes and reading them back gives `v`, when `v` fits in `n` bytes.
pub proof fn lemma_le_round_trip(v: nat, n: nat)
    requires
        v < pow256(n),
    ensures
        le_bytes(v, n).len() == n,
        le_value(le_bytes(v, n)) == v,
{
    lemma_le_bytes(v, n);
    vstd::arithmetic::div_mod::lemma_small_mod(v, pow256(n));
}

pub proof fn lemma_pow256_values()
    ensures
        pow256(4) == 0x1_0000_0000,
        pow256(8) == 0x1_0000_0000_0000_0000,
{
    reveal_with_fuel(pow256, 9);
}

/// Writing a signed number as eight bytes and reading them back gives the number.
pub proof fn lemma_i64_round_trip(v: i64)
    ensures
        i64_bytes(v).len() == 8,
        le_i64(i64_bytes(v)) == v,
{
    lemma_pow256_values();
    if v >= 0 {
        lemma_le_round_trip(v as nat, 8);
    } else {
        lemma_le_round_trip((v + 0x1_0000_0000_0000_0000) as nat, 8);
    }
}

/// Writing a string and reading it back from the start of the written bytes, with any bytes
/// after them, gives the string and takes up exactly its written bytes.
pub proof fn lemma_string_round_trip(s: Seq<char>, rest: Seq<u8>)
    requires
        encode_utf8(s).len() <= usize::MAX,
    ensures
        reads_string(string_bytes(s) + rest),
        string_len(string_bytes(s) + rest) == string_bytes(s).len(),
        read_string_value(string_bytes(s) + rest) == s,
{
    let e = encode_utf8(s);
    let b = string_bytes(s) + rest;
    lemma_pow256_values();
    lemma_le_round_trip(e.len(), 8);
    assert(b.take(8) =~= le_bytes(e.len(), 8));
    assert(b.subrange(8, 8 + e.len() as int) =~= e);
    vstd::utf8::encode_utf8_valid_utf8(s);
    vstd::utf8::encode_utf8_decode_utf8(s);
}

/// `bincode::serialize` on a `u32`: its four bytes, least significant first. Writing into a
/// vector with bincode's unlimited default size cannot fail.
#[verifier::external_body]
pub(crate) fn serialize_u32(v: u32) -> (r: Result<Vec<u8>, Box<bincode::ErrorKind>>)
    ensures
        r is Ok,
        r matches Ok(b) ==> b@ == le_bytes(v as nat, 4),
{
    bincode::serialize(&v)
}

/// `bincode::serialize` on a `usize`: written as a `u64`, eight bytes, least significant first.
#[verifier::external_body]
pub(crate) fn serialize_usize(v: usize) -> (r: Result<Vec<u8>, Box<bincode::ErrorKind>>)
    ensures
        r is Ok,
        r matches Ok(b) ==> b@ == le_bytes(v as nat, 8),
{
    bincode::serialize(&v)
}

/// `bincode::serialize` on an `i64`: its eight bytes in two's complement, least significant first.
#[verifier::external_body]
pub(crate) fn serialize_i64(v: i64) -> (r: Result<Vec<u8>, Box<bincode::ErrorKind>>)
    ensures
        r is Ok,
        r matches Ok(b) ==> b@ == i64_bytes(v),
{
    bincode::serialize(&v)
}

/// `bincode::serialize` on a `str`, which bincode writes as it writes a `String`: the number of its UTF-8 bytes as a `u64`, then the bytes.
#[verifier::external_body]
pub(crate) fn serialize_string(s: &str) -> (r: Result<Vec<u8>, Box<bincode::ErrorKind>>)
    ensures
        r is Ok,
        r matches Ok(b) ==> b@ == string_bytes(s@),
{
    bincode::serialize(s)
}

/// `bincode::deserialize::<u32>`: reads the first four bytes, least significant first; fails
/// when fewer than four bytes are given. Bytes after them are left unread.
#[verifier::external_body]
pub(crate) fn deserialize_u32(bytes: &[u8]) -> (r: Result<u32, Box<bincode::ErrorKind>>)
    ensures
        r is Ok <==> bytes@.len() >= 4,
        r matches Ok(v) ==> v as nat == le_value(bytes@.take(4)),
{
    bincode::deserialize::<u32>(bytes)
}

/// `bincode::deserialize::<usize>`: reads a `u64` from the first eight bytes; fails when fewer
/// than eight bytes are given or the number does not fit in `usize`.
#[verifier::external_body]
pub(crate) fn deserialize_usize(bytes: &[u8]) -> (r: Result<usize, Box<bincode::ErrorKind>>)
    ensures
        r is Ok <==> (bytes@.len() >= 8 && le_value(bytes@.take(8)) <= usize::MAX),
        r matches Ok(v) ==> v as nat == le_value(bytes@.take(8)),
{
    bincode::deserialize::<usize>(bytes)
}

/// `bincode::deserialize::<i64>`: reads the first eight bytes as a two's complement number;
/// fails when fewer than eight bytes are given.
#[verifier::external_body]
pub(crate) fn deserialize_i64(bytes: &[u8]) -> (r: Result<i64, Box<bincode::ErrorKind>>)
    ensures
        r is Ok <==> bytes@.len() >= 8,
        r matches Ok(v) ==> v as int == le_i64(bytes@.take(8)),
{
    bincode::deserialize::<i64>(bytes)
}

/// `bincode::deserialize::<String>`: reads a `u64` length and then that many bytes, which
/// must be UTF-8; fails when the length does not fit in `usize`, when fewer bytes follow, or
/// when they are not UTF-8.
#[verifier::external_body]
pub(crate) fn deserialize_string(bytes: &[u8]) -> (r: Result<String, Box<bincode::ErrorKind>>)
    ensures
        r is Ok <==> reads_string(bytes@),
        r matches Ok(s) ==> s@ == read_string_value(bytes@),
{
    bincode::deserialize::<String>(bytes)
}

/// The bytes of `v` from position `pos` on.
pub fn tail(v: &[u8], pos: usize) -> (r: &[u8])
    requires
        pos <= v@.len(),
    ensures
        r@ == v@.subrange(pos as int, v@.len() as int),
{
    &v[pos..v.len()]
}

/// The UTF-8 encoding of two pieces of text, one after the other, is the encoding of the first
/// followed by that of the second.
pub proof fn lemma_encode_utf8_concat(a: Seq<char>, b: Seq<char>)
    ensures
        encode_utf8(a + b) == encode_utf8(a) + encode_utf8(b),
    decreases a.len(),
{
    if a.len() == 0 {
        assert(a + b =~= b);
        assert(encode_utf8(a) + encode_utf8(b) =~= encode_utf8(b));
    } else {
        lemma_encode_utf8_concat(a.drop_first(), b);
        assert((a + b).drop_first() =~= a.drop_first() + b);
        assert((a + b)[0] == a[0]);
        assert(encode_utf8(a + b) =~= encode_utf8(a) + encode_utf8(b));
    }
}

/// No byte of the UTF-8 encoding of a character other than a line feed is a line feed.
proof fn lemma_scalar_has_no_line_feed(v: u32)
    requires
        v != 10,
    ensures
        forall|i: int| 0 <= i < encode_scalar(v).len() ==> encode_scalar(v)[i] != 10u8,
{
    assert(v != 10 && v <= 0x7f ==> (v & 0x7f) as u8 != 10u8) by (bit_vector);
    assert(0xC0u8 | ((v >> 6) & 0x1F) as u8 != 10u8) by (bit_vector);
    assert(0xE0u8 | ((v >> 12) & 0x0F) as u8 != 10u8) by (bit_vector);
    assert(0xF0u8 | ((v >> 18) & 0x7) as u8 != 10u8) by (bit_vector);
    assert(0x80u8 | (v & 0x3F) as u8 != 10u8) by (bit_vector);
    assert(0x80u8 | ((v >> 6) & 0x3F) as u8 != 10u8) by (bit_vector);
    assert(0x80u8 | ((v >> 12) & 0x3F) as u8 != 10u8) by (bit_vector);
    assert(leading_byte_width_1(v) == (v & 0x7f) as u8);
    assert(leading_byte_width_2(v) == 0xC0u8 | ((v >> 6) & 0x1F) as u8);
    assert(leading_byte_width_3(v) == 0xE0u8 | ((v >> 12) & 0x0F) as u8);
    assert(leading_byte_width_4(v) == 0xF0u8 | ((v >> 18) & 0x7) as u8);
    assert(last_continuation_byte(v) == 0x80u8 | (v & 0x3F) as u8);
    assert(second_last_continuation_byte(v) == 0x80u8 | ((v >> 6) & 0x3F) as u8);
    assert(third_last_continuation_byte(v) == 0x80u8 | ((v >> 12) & 0x3F) as u8);
}

/// Text without a line feed encodes to UTF-8 bytes without a line feed.
pub proof fn lemma_encode_utf8_no_line_feed(chars: Seq<char>)
    requires
        !chars.contains('\n'),
    ensures
        !encode_utf8(chars).contains(10u8),
    decreases chars.len(),
{
    if chars.len() > 0 {
        let rest = chars.drop_first();
        assert(!rest.contains('\n')) by {
            if rest.contains('\n') {
                let j = choose|j: int| 0 <= j < rest.len() && rest[j] == '\n';
                assert(chars[j + 1] == '\n');
            }
        }
        lemma_encode_utf8_no_line_feed(rest);
        assert(chars[0] != '\n');
        assert((chars[0] as u32) != 10u32) by {
            if (chars[0] as u32) == 10u32 {
                vstd::utf8::char_u32_cast(chars[0], 10u32);
                vstd::utf8::char_u32_cast('\n', 10u32);
            }
        }
        lemma_scalar_has_no_line_feed(chars[0] as u32);
        let e = encode_utf8(chars);
        let es = encode_scalar(chars[0] as u32);
        let er = encode_utf8(rest);
        assert(e =~= es + er);
        if e.contains(10u8) {
            let j = choose|j: int| 0 <= j < e.len() && e[j] == 10u8;
            if j < es.len() {
                assert(es[j] == 10u8);
            } else {
                assert(er[j - es.len()] == 10u8);
            }
        }
    }
}

} // verus!
