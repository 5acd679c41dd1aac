//! Byte-level text primitives shared by every artifact: FNV-1a hashing, the
//! `fnv1a64:` hash text, decimal and hexadecimal digits, and the compact JSON
//! encoding of strings and integers that canonical hashes are computed over.

use vstd::prelude::*;
use vstd::string::*;

verus! {

pub const FNV_OFFSET_BASIS: u64 = 0xcbf2_9ce4_8422_2325;

pub const FNV_PRIME: u64 = 0x0000_0100_0000_01b3;

/// One FNV-1a round: xor the byte in, then multiply modulo 2^64.
pub open spec fn fnv_round(hash: u64, byte: u8) -> u64 {
    (((hash ^ (byte as u64)) as nat * FNV_PRIME as nat) % 0x1_0000_0000_0000_0000nat) as u64
}

/// FNV-1a folded over `bytes`, starting from `hash`.
pub open spec fn fnv_fold(hash: u64, bytes: Seq<u8>) -> u64
    decreases bytes.len(),
{
    if bytes.len() == 0 {
        hash
    } else {
        fnv_round(fnv_fold(hash, bytes.drop_last()), bytes.last())
    }
}

/// The 64-bit FNV-1a hash of a byte sequence.
pub open spec fn fnv1a64_spec(bytes: Seq<u8>) -> u64 {
    fnv_fold(FNV_OFFSET_BASIS, bytes)
}

/// 64-bit FNV-1a over `bytes`.
pub fn fnv1a64(bytes: &[u8]) -> (hash: u64)
    ensures
        hash == fnv1a64_spec(bytes@),
{
    let mut hash: u64 = FNV_OFFSET_BASIS;
    let mut i: usize = 0;
    while i < bytes.len()
        invariant
            i <= bytes@.len(),
            hash == fnv_fold(FNV_OFFSET_BASIS, bytes@.take(i as int)),
        decreases bytes@.len() - i,
    {
        assert(bytes@.take(i + 1).drop_last() =~= bytes@.take(i as int));
        hash = (hash ^ (bytes[i] as u64)).wrapping_mul(FNV_PRIME);
        i = i + 1;
    }
    assert(bytes@.take(bytes@.len() as int) =~= bytes@);
    hash
}

/// Lower-case hexadecimal digit for `d < 16`.
pub open spec fn hex_char(d: nat) -> char {
    if d == 0 {
        '0'
    } else if d == 1 {
        '1'
    } else if d == 2 {
        '2'
    } else if d == 3 {
        '3'
    } else if d == 4 {
        '4'
    } else if d == 5 {
        '5'
    } else if d == 6 {
        '6'
    } else if d == 7 {
        '7'
    } else if d == 8 {
        '8'
    } else if d == 9 {
        '9'
    } else if d == 10 {
        'a'
    } else if d == 11 {
        'b'
    } else if d == 12 {
        'c'
    } else if d == 13 {
        'd'
    } else if d == 14 {
        'e'
    } else {
        'f'
    }
}

/// The `width` low hexadecimal digits of `n`, most significant first,
/// zero-padded (`{:0width$x}` for values below 16^width).
pub open spec fn hex_digits(n: nat, width: nat) -> Seq<char>
    decreases width,
{
    if width == 0 {
        Seq::empty()
    } else {
        hex_digits(n / 16, (width - 1) as nat).push(hex_char(n % 16))
    }
}

/// The text form of a hash: `fnv1a64:` followed by 16 lower-case hex digits.
pub open spec fn hash_text(hash: u64) -> Seq<char> {
    "fnv1a64:"@ + hex_digits(hash as nat, 16)
}

fn hex_str(d: u64) -> (s: &'static str)
    requires
        d < 16,
    ensures
        s@ == seq![hex_char(d as nat)],
{
    if d == 0 {
        proof { reveal_strlit("0"); }
        "0"
    } else if d == 1 {
        proof { reveal_strlit("1"); }
        "1"
    } else if d == 2 {
        proof { reveal_strlit("2"); }
        "2"
    } else if d == 3 {
        proof { reveal_strlit("3"); }
        "3"
    } else if d == 4 {
        proof { reveal_strlit("4"); }
        "4"
    } else if d == 5 {
        proof { reveal_strlit("5"); }
        "5"
    } else if d == 6 {
        proof { reveal_strlit("6"); }
        "6"
    } else if d == 7 {
        proof { reveal_strlit("7"); }
        "7"
    } else if d == 8 {
        proof { reveal_strlit("8"); }
        "8"
    } else if d == 9 {
        proof { reveal_strlit("9"); }
        "9"
    } else if d == 10 {
        proof { reveal_strlit("a"); }
        "a"
    } else if d == 11 {
        proof { reveal_strlit("b"); }
        "b"
    } else if d == 12 {
        proof { reveal_strlit("c"); }
        "c"
    } else if d == 13 {
        proof { reveal_strlit("d"); }
        "d"
    } else if d == 14 {
        proof { reveal_strlit("e"); }
        "e"
    } else {
        proof { reveal_strlit("f"); }
        "f"
    }
}

/// Appends the `width` low hexadecimal digits of `n` to `s`.
pub fn push_hex_digits(s: &mut String, n: u64, width: usize)
    ensures
        final(s)@ == old(s)@ + hex_digits(n as nat, width as nat),
    decreases width,
{
    if width > 0 {
        push_hex_digits(s, n / 16, width - 1);
        s.append(hex_str(n % 16));
    } else {
        assert(old(s)@ + hex_digits(n as nat, 0) =~= old(s)@);
    }
}

/// Formats a hash as `fnv1a64:` and 16 lower-case hexadecimal digits.
pub fn format_hash(hash: u64) -> (s: String)
    ensures
        s@ == hash_text(hash),
{
    let mut s = String::from_str("fnv1a64:");
    push_hex_digits(&mut s, hash, 16);
    s
}

/// The decimal text of `n`, most significant digit first.
pub open spec fn dec_text(n: nat) -> Seq<char>
    decreases n,
{
    if n < 10 {
        seq![hex_char(n)]
    } else {
        dec_text(n / 10).push(hex_char(n % 10))
    }
}

/// Appends the decimal text of `n` to `s`.
pub fn push_dec_text(s: &mut String, n: u64)
    ensures
        final(s)@ == old(s)@ + dec_text(n as nat),
    decreases n,
{
    if n >= 10 {
        push_dec_text(s, n / 10);
        s.append(hex_str(n % 10));
    } else {
        s.append(hex_str(n));
        assert(final(s)@ =~= old(s)@ + dec_text(n as nat));
    }
}

/// The decimal text of a signed integer: a `-` sign for negatives.
pub open spec fn int_text(i: int) -> Seq<char> {
    if i < 0 {
        "-"@ + dec_text((-i) as nat)
    } else {
        dec_text(i as nat)
    }
}

/// Appends the decimal text of a signed 64-bit integer to `s`.
pub fn push_int_text(s: &mut String, v: i64)
    requires
        v > i64::MIN,
    ensures
        final(s)@ == old(s)@ + int_text(v as int),
{
    if v < 0 {
        s.append("-");
        let ghost mid = s@;
        push_dec_text(s, (-v) as u64);
        assert(final(s)@ =~= old(s)@ + int_text(v as int));
    } else {
        push_dec_text(s, v as u64);
    }
}

/// The four low hexadecimal digits of a seed, as used in seed-derived ids.
pub open spec fn stable_suffix_spec(seed: u64) -> Seq<char> {
    hex_digits((seed % 0x10000) as nat, 4)
}

/// The four low hexadecimal digits of `seed` (`{:04x}` of `seed & 0xffff`).
pub fn stable_suffix(seed: u64) -> (r: String)
    ensures
        r@ == stable_suffix_spec(seed),
{
    let low = seed & 0xffff;
    assert(seed & 0xffff == seed % 0x10000) by (bit_vector);
    let mut s = String::new();
    push_hex_digits(&mut s, low, 4);
    assert(s@ =~= stable_suffix_spec(seed));
    s
}

/// The decimal digits of `n` as ASCII bytes, most significant first.
pub open spec fn dec_bytes(n: nat) -> Seq<u8>
    decreases n,
{
    if n < 10 {
        seq![(48 + n) as u8]
    } else {
        dec_bytes(n / 10).push((48 + n % 10) as u8)
    }
}

/// The decimal text of a signed integer: a `-` sign for negatives.
pub open spec fn int_bytes(i: int) -> Seq<u8> {
    if i < 0 {
        seq![45u8] + dec_bytes((-i) as nat)
    } else {
        dec_bytes(i as nat)
    }
}

/// Appends the decimal digits of `n`.
pub fn push_dec(out: &mut Vec<u8>, n: u64)
    ensures
        final(out)@ == old(out)@ + dec_bytes(n as nat),
    decreases n,
{
    if n >= 10 {
        push_dec(out, n / 10);
        out.push((48 + n % 10) as u8);
    } else {
        out.push((48 + n) as u8);
        assert(final(out)@ =~= old(out)@ + dec_bytes(n as nat));
    }
}

/// Appends the decimal text of a signed 32-bit integer.
pub fn push_i32(out: &mut Vec<u8>, v: i32)
    ensures
        final(out)@ == old(out)@ + int_bytes(v as int),
{
    if v < 0 {
        out.push(45u8);
        let magnitude: u64 = (-(v as i64)) as u64;
        push_dec(out, magnitude);
        assert(final(out)@ =~= old(out)@ + int_bytes(v as int));
    } else {
        push_dec(out, v as u64);
    }
}

/// Appends the UTF-8 bytes of a string verbatim.
pub fn push_raw(out: &mut Vec<u8>, s: &str)
    ensures
        final(out)@ == old(out)@ + s.spec_bytes(),
{
    let bytes = s.as_bytes();
    let mut i: usize = 0;
    while i < bytes.len()
        invariant
            i <= bytes@.len(),
            bytes@ == s.spec_bytes(),
            out@ == old(out)@ + bytes@.take(i as int),
        decreases bytes@.len() - i,
    {
        out.push(bytes[i]);
        i = i + 1;
        assert(out@ =~= old(out)@ + bytes@.take(i as int));
    }
    assert(bytes@.take(bytes@.len() as int) =~= bytes@);
}

/// Lower-case hexadecimal digit byte for `d < 16`.
pub open spec fn hex_byte(d: nat) -> u8 {
    if d < 10 {
        (48 + d) as u8
    } else {
        (87 + d) as u8
    }
}

/// The JSON escape of one byte of a UTF-8 string: quote, backslash and
/// control characters are escaped, every other byte is written as is.
pub open spec fn json_escape_byte(b: u8) -> Seq<u8> {
    if b == 34 {
        seq![92u8, 34u8]
    } else if b == 92 {
        seq![92u8, 92u8]
    } else if b == 8 {
        seq![92u8, 98u8]
    } else if b == 12 {
        seq![92u8, 102u8]
    } else if b == 10 {
        seq![92u8, 110u8]
    } else if b == 13 {
        seq![92u8, 114u8]
    } else if b == 9 {
        seq![92u8, 116u8]
    } else if b < 32 {
        seq![92u8, 117u8, 48u8, 48u8, hex_byte(b as nat / 16), hex_byte(b as nat % 16)]
    } else {
        seq![b]
    }
}

pub open spec fn json_escape(bytes: Seq<u8>) -> Seq<u8>
    decreases bytes.len(),
{
    if bytes.len() == 0 {
        Seq::empty()
    } else {
        json_escape(bytes.drop_last()) + json_escape_byte(bytes.last())
    }
}

/// A JSON string literal holding the given UTF-8 bytes.
pub open spec fn json_string(bytes: Seq<u8>) -> Seq<u8> {
    seq![34u8] + json_escape(bytes) + seq![34u8]
}

fn push_escaped_byte(out: &mut Vec<u8>, b: u8)
    ensures
        final(out)@ == old(out)@ + json_escape_byte(b),
{
    if b == 34 || b == 92 {
        out.push(92u8);
        out.push(b);
    } else if b == 8 {
        out.push(92u8);
        out.push(98u8);
    } else if b == 12 {
        out.push(92u8);
        out.push(102u8);
    } else if b == 10 {
        out.push(92u8);
        out.push(110u8);
    } else if b == 13 {
        out.push(92u8);
        out.push(114u8);
    } else if b == 9 {
        out.push(92u8);
        out.push(116u8);
    } else if b < 32 {
        out.push(92u8);
        out.push(117u8);
        out.push(48u8);
        out.push(48u8);
        let hi = b / 16;
        let lo = b % 16;
        out.push(if hi < 10 { 48 + hi } else { 87 + hi });
        out.push(if lo < 10 { 48 + lo } else { 87 + lo });
    } else {
        out.push(b);
    }
    assert(final(out)@ =~= old(out)@ + json_escape_byte(b));
}

/// Appends a JSON string literal holding the bytes of `s`.
pub fn push_json_str(out: &mut Vec<u8>, s: &str)
    ensures
        final(out)@ == old(out)@ + json_string(s.spec_bytes()),
{
    let bytes = s.as_bytes();
    out.push(34u8);
    let ghost start = out@;
    let mut i: usize = 0;
    while i < bytes.len()
        invariant
            i <= bytes@.len(),
            start == old(out)@.push(34u8),
            out@ == start + json_escape(bytes@.take(i as int)),
        decreases bytes@.len() - i,
    {
        assert(bytes@.take(i + 1).drop_last() =~= bytes@.take(i as int));
        push_escaped_byte(out, bytes[i]);
        i = i + 1;
        assert(out@ =~= start + json_escape(bytes@.take(i as int)));
    }
    assert(bytes@.take(bytes@.len() as int) =~= bytes@);
    out.push(34u8);
    assert(final(out)@ =~= old(out)@ + json_string(s.spec_bytes()));
}

/// Byte-wise string equality.
pub fn str_eq(a: &str, b: &str) -> (r: bool)
    ensures
        r == (a@ == b@),
{
    let x = a.as_bytes();
    let y = b.as_bytes();
    proof {
        vstd::utf8::encode_utf8_decode_utf8(a@);
        vstd::utf8::encode_utf8_decode_utf8(b@);
    }
    if x.len() != y.len() {
        assert(x@ != y@);
        return false;
    }
    let mut i: usize = 0;
    while i < x.len()
        invariant
            x@.len() == y@.len(),
            x@ == a.spec_bytes(),
            y@ == b.spec_bytes(),
            i <= x@.len(),
            forall|j: int| 0 <= j < i ==> x@[j] == y@[j],
        decreases x@.len() - i,
    {
        if x[i] != y[i] {
            assert(x@ != y@);
            return false;
        }
        i = i + 1;
    }
    assert(x@ =~= y@);
    true
}

} // verus!
