//! Reading a BN254 scalar from a hexadecimal string.
use crate::field::{modulus, FieldElement};
use ark_bn254::Fr;
use ark_ff::PrimeField;
use vstd::prelude::*;

verus! {

/// An ASCII hexadecimal digit, in either case.
pub open spec fn is_hex_digit(b: u8) -> bool {
    (48 <= b <= 57) || (97 <= b <= 102) || (65 <= b <= 70)
}

/// The value of an ASCII hexadecimal digit.
pub open spec fn hex_digit_value(b: u8) -> nat {
    if 48 <= b <= 57 {
        (b - 48) as nat
    } else if 97 <= b <= 102 {
        (b - 87) as nat
    } else {
        (b - 55) as nat
    }
}

/// A character that is an ASCII hexadecimal digit.
pub open spec fn is_hex_char(c: char) -> bool {
    (c as int) < 128 && is_hex_digit(c as u8)
}

/// Bytes that `hex::decode` accepts: an even number of hexadecimal digits.
pub open spec fn hex_decodable(data: Seq<u8>) -> bool {
    &&& data.len() % 2 == 0
    &&& forall|i: int| 0 <= i < data.len() ==> is_hex_digit(#[trigger] data[i])
}

/// The bytes that `hex::decode` gives for decodable input: one byte per pair of digits,
/// the first digit of each pair being the high nibble.
pub open spec fn hex_decoded(data: Seq<u8>) -> Seq<u8> {
    Seq::new(
        data.len() / 2,
        |i: int| (16 * hex_digit_value(data[2 * i]) + hex_digit_value(data[2 * i + 1])) as u8,
    )
}

/// The number that a big-endian byte string stands for.
pub open spec fn be_value(bytes: Seq<u8>) -> nat
    decreases bytes.len(),
{
    if bytes.len() == 0 {
        0
    } else {
        be_value(bytes.drop_last()) * 256 + bytes.last() as nat
    }
}

/// The number that a string of hexadecimal digits stands for (most significant digit first).
pub open spec fn hex_value(s: Seq<char>) -> nat
    decreases s.len(),
{
    if s.len() == 0 {
        0
    } else {
        hex_value(s.drop_last()) * 16 + hex_digit_value(s.last() as u8)
    }
}

/// `str::trim_start_matches("0x")`: every leading "0x" removed.
pub open spec fn strip_0x(s: Seq<char>) -> Seq<char>
    decreases s.len(),
{
    if s.len() >= 2 && s[0] == '0' && s[1] == 'x' {
        strip_0x(s.skip(2))
    } else {
        s
    }
}

/// Inputs on which `hex_to_scalar` succeeds: after the "0x" prefixes only hexadecimal digits
/// remain, and an input longer than 64 digits has an even number of them.
pub open spec fn hex_scalar_input(s: Seq<char>) -> bool {
    let t = strip_0x(s);
    &&& forall|i: int| 0 <= i < t.len() ==> is_hex_char(#[trigger] t[i])
    &&& (t.len() < 64 || t.len() % 2 == 0)
}

/// The scalar that a hexadecimal string denotes: its number reduced modulo r.
pub open spec fn hex_scalar_value(s: Seq<char>) -> nat {
    hex_value(strip_0x(s)) % modulus()
}

/// Parses a hexadecimal string, with any number of leading "0x", as a BN254 scalar.
/// The digits are read as one big-endian number and reduced modulo r.
pub fn hex_to_scalar(hex: &str) -> (r: FieldElement)
    requires
        hex_scalar_input(hex@),
    ensures
        r.wf(),
        r.value() == hex_scalar_value(hex@),
{
    let bytes = hex_to_be_bytes(hex);
    fr_from_be_bytes_mod_order(bytes.as_slice())
}

/// The big-endian bytes that `hex_to_scalar` reduces: after the "0x" prefixes, the digits
/// left-padded with '0' to 64 and decoded in pairs (so at least 32 bytes).
pub fn hex_to_be_bytes(hex: &str) -> (r: Vec<u8>)
    requires
        hex_scalar_input(hex@),
    ensures
        be_value(r@) == hex_value(strip_0x(hex@)),
        r@.len() == (if strip_0x(hex@).len() < 64 { 32 } else { strip_0x(hex@).len() / 2 }),
{
    let n = hex.unicode_len();
    let ghost s = hex@;
    let start = skip_0x_prefixes(hex);
    let ghost t = s.skip(start as int);
    assert(strip_0x(s) == t);
    let len = n - start;
    let mut bytes: Vec<u8> = Vec::new();
    if len < 64 {
        let fill = 64 - len;
        let mut k: usize = 0;
        while k < fill
            invariant
                k <= fill,
                bytes@ =~= Seq::new(k as nat, |i: int| 48u8),
            decreases fill - k,
        {
            bytes.push(48u8);
            k = k + 1;
        }
    }
    let ghost fill_len = bytes@.len();
    let mut i: usize = start;
    while i < n
        invariant
            n == s.len(),
            s == hex@,
            start <= i <= n,
            t == s.skip(start as int),
            forall|j: int| 0 <= j < t.len() ==> is_hex_char(#[trigger] t[j]),
            bytes@.len() == fill_len + (i - start),
            forall|j: int| 0 <= j < fill_len ==> bytes@[j] == 48u8,
            forall|j: int| 0 <= j < i - start ==> bytes@[fill_len + j] == (#[trigger] t[j]) as u8,
        decreases n - i,
    {
        let c = hex.get_char(i);
        assert(t[i - start] == c);
        bytes.push(ascii_byte(c));
        i = i + 1;
    }
    proof {
        lemma_padded_bytes(t, bytes@, fill_len);
    }
    let decoded = hex_decode(bytes.as_slice()).unwrap();
    decoded
}

/// The number of leading characters that `strip_0x` removes.
fn skip_0x_prefixes(hex: &str) -> (start: usize)
    ensures
        start <= hex@.len(),
        strip_0x(hex@) == hex@.skip(start as int),
{
    let n = hex.unicode_len();
    let ghost s = hex@;
    let mut start: usize = 0;
    assert(s.skip(0) =~= s);
    while n - start >= 2 && hex.get_char(start) == '0' && hex.get_char(start + 1) == 'x'
        invariant
            n == s.len(),
            s == hex@,
            start <= n,
            strip_0x(s) == strip_0x(s.skip(start as int)),
        decreases n - start,
    {
        proof {
            let u = s.skip(start as int);
            assert(u[0] == '0' && u[1] == 'x');
            assert(u.skip(2) =~= s.skip(start + 2));
        }
        start = start + 2;
    }
    assert(strip_0x(s.skip(start as int)) == s.skip(start as int));
    start
}

/// Whether `hex_to_scalar` accepts `hex`.
pub fn is_hex_scalar_input(hex: &str) -> (r: bool)
    ensures
        r == hex_scalar_input(hex@),
{
    let n = hex.unicode_len();
    let ghost s = hex@;
    let start = skip_0x_prefixes(hex);
    let ghost t = s.skip(start as int);
    let len = n - start;
    if len >= 64 && len % 2 != 0 {
        return false;
    }
    let mut i: usize = start;
    while i < n
        invariant
            n == s.len(),
            s == hex@,
            start <= i <= n,
            t == s.skip(start as int),
            strip_0x(s) == t,
            forall|j: int| 0 <= j < i - start ==> is_hex_char(#[trigger] t[j]),
        decreases n - i,
    {
        let c = hex.get_char(i);
        assert(t[i - start] == c);
        if !is_hex_char_exec(c) {
            assert(!is_hex_char(t[i - start]));
            return false;
        }
        i = i + 1;
    }
    true
}

/// Whether a character is an ASCII hexadecimal digit.
fn is_hex_char_exec(c: char) -> (r: bool)
    ensures
        r == is_hex_char(c),
{
    ('0' <= c && c <= '9') || ('a' <= c && c <= 'f') || ('A' <= c && c <= 'F')
}

/// The byte of an ASCII character.
fn ascii_byte(c: char) -> (b: u8)
    requires
        (c as int) < 128,
    ensures
        b == c as u8,
{
    c as u8
}

/// The zero-padded digits, as bytes, decode to bytes of the same big-endian value.
proof fn lemma_padded_bytes(t: Seq<char>, bytes: Seq<u8>, fill_len: nat)
    requires
        forall|j: int| 0 <= j < t.len() ==> is_hex_char(#[trigger] t[j]),
        t.len() < 64 || t.len() % 2 == 0,
        fill_len == (if t.len() < 64 { 64 - t.len() } else { 0int }),
        bytes.len() == fill_len + t.len(),
        forall|j: int| 0 <= j < fill_len ==> bytes[j] == 48u8,
        forall|j: int| 0 <= j < t.len() ==> bytes[fill_len + j] == (#[trigger] t[j]) as u8,
    ensures
        hex_decodable(bytes),
        be_value(hex_decoded(bytes)) == hex_value(t),
{
    assert forall|i: int| 0 <= i < bytes.len() implies is_hex_digit(#[trigger] bytes[i]) by {
        if i >= fill_len {
            assert(is_hex_char(t[i - fill_len]));
        }
    }
    lemma_decoded_value(bytes);
    lemma_leading_zeros(t, bytes, fill_len);
}

/// The hexadecimal value of a byte string, most significant digit first.
pub open spec fn hex_bytes_value(b: Seq<u8>) -> nat
    decreases b.len(),
{
    if b.len() == 0 {
        0
    } else {
        hex_bytes_value(b.drop_last()) * 16 + hex_digit_value(b.last())
    }
}

/// Decoding pairs of digits keeps the number: each byte carries two digits.
proof fn lemma_decoded_value(b: Seq<u8>)
    requires
        hex_decodable(b),
    ensures
        be_value(hex_decoded(b)) == hex_bytes_value(b),
    decreases b.len(),
{
    if b.len() > 0 {
        let p = b.take(b.len() - 2);
        assert(hex_decodable(p)) by {
            assert forall|i: int| 0 <= i < p.len() implies is_hex_digit(#[trigger] p[i]) by {
                assert(p[i] == b[i]);
            }
        }
        lemma_decoded_value(p);
        let d = hex_decoded(b);
        assert(d.drop_last() =~= hex_decoded(p));
        assert(b.drop_last().drop_last() =~= p);
        assert(is_hex_digit(b[b.len() - 2]));
        assert(is_hex_digit(b[b.len() - 1]));
        assert(hex_digit_value(b[b.len() - 2]) < 16);
        assert(hex_digit_value(b[b.len() - 1]) < 16);
        let h1 = hex_digit_value(b[b.len() - 2]);
        let h2 = hex_digit_value(b[b.len() - 1]);
        assert(d.last() == 16 * h1 + h2);
        assert(be_value(d) == be_value(d.drop_last()) * 256 + d.last() as nat);
        assert(hex_bytes_value(b) == hex_bytes_value(b.drop_last()) * 16 + h2);
        assert(b.drop_last().last() == b[b.len() - 2]);
        assert(hex_bytes_value(b.drop_last()) == hex_bytes_value(p) * 16 + h1);
    }
}

/// Leading '0' digits do not change a number, and the bytes carry the same digits as `t`.
proof fn lemma_leading_zeros(t: Seq<char>, bytes: Seq<u8>, fill_len: nat)
    requires
        bytes.len() == fill_len + t.len(),
        forall|j: int| 0 <= j < fill_len ==> bytes[j] == 48u8,
        forall|j: int| 0 <= j < t.len() ==> bytes[fill_len + j] == (#[trigger] t[j]) as u8,
    ensures
        hex_bytes_value(bytes) == hex_value(t),
    decreases t.len() + fill_len,
{
    if t.len() > 0 {
        let b2 = bytes.drop_last();
        let t2 = t.drop_last();
        assert forall|j: int| 0 <= j < t2.len() implies b2[fill_len + j] == (#[trigger] t2[j]) as u8 by {
            assert(t2[j] == t[j]);
        }
        lemma_leading_zeros(t2, b2, fill_len);
        assert(bytes.last() == t.last() as u8);
    } else if fill_len > 0 {
        let b2 = bytes.drop_last();
        lemma_leading_zeros(t, b2, (fill_len - 1) as nat);
        assert(bytes.last() == 48u8);
    }
}

/// A leading "0x" changes neither whether a string is accepted nor the scalar it denotes.
pub proof fn law_hex_prefix_ignored(s: Seq<char>)
    ensures
        strip_0x(seq!['0', 'x'] + s) == strip_0x(s),
        hex_scalar_input(seq!['0', 'x'] + s) == hex_scalar_input(s),
        hex_scalar_value(seq!['0', 'x'] + s) == hex_scalar_value(s),
{
    let p = seq!['0', 'x'] + s;
    assert(p.skip(2) =~= s);
}

/// A leading zero digit does not change the scalar that a string of hexadecimal digits denotes.
pub proof fn law_hex_leading_zero_ignored(s: Seq<char>)
    requires
        forall|i: int| 0 <= i < s.len() ==> is_hex_char(#[trigger] s[i]),
    ensures
        hex_scalar_value(seq!['0'] + s) == hex_scalar_value(s),
{
    let p = seq!['0'] + s;
    if s.len() >= 2 {
        assert(is_hex_char(s[1]));
    }
    if s.len() >= 1 {
        assert(is_hex_char(s[0]));
        assert(p[1] == s[0]);
    }
    assert(strip_0x(s) == s);
    assert(strip_0x(p) == p);
    lemma_hex_value_leading_zero(s);
}

/// A number below r is its own scalar.
pub proof fn law_hex_small_value(s: Seq<char>)
    requires
        hex_value(strip_0x(s)) < modulus(),
    ensures
        hex_scalar_value(s) == hex_value(strip_0x(s)),
{
    vstd::arithmetic::div_mod::lemma_small_mod(hex_value(strip_0x(s)), modulus());
}

proof fn lemma_hex_value_leading_zero(s: Seq<char>)
    ensures
        hex_value(seq!['0'] + s) == hex_value(s),
    decreases s.len(),
{
    let p = seq!['0'] + s;
    if s.len() > 0 {
        lemma_hex_value_leading_zero(s.drop_last());
        assert(p.drop_last() =~= seq!['0'] + s.drop_last());
        assert(p.last() == s.last());
        assert(hex_value(p) == hex_value(p.drop_last()) * 16 + hex_digit_value(p.last() as u8));
    } else {
        assert(p.drop_last() =~= Seq::<char>::empty());
        assert(hex_value(p.drop_last()) == 0);
        assert(p.last() == '0');
        assert(('0' as u8) == 48u8);
        assert(hex_digit_value(p.last() as u8) == 0);
        assert(hex_value(p) == hex_value(p.drop_last()) * 16 + hex_digit_value(p.last() as u8));
    }
}

/// `char::to_ascii_lowercase` on a hexadecimal digit.
pub open spec fn hex_lower(c: char) -> char {
    if c == 'A' {
        'a'
    } else if c == 'B' {
        'b'
    } else if c == 'C' {
        'c'
    } else if c == 'D' {
        'd'
    } else if c == 'E' {
        'e'
    } else if c == 'F' {
        'f'
    } else {
        c
    }
}

/// `char::to_ascii_uppercase` on a hexadecimal digit.
pub open spec fn hex_upper(c: char) -> char {
    if c == 'a' {
        'A'
    } else if c == 'b' {
        'B'
    } else if c == 'c' {
        'C'
    } else if c == 'd' {
        'D'
    } else if c == 'e' {
        'E'
    } else if c == 'f' {
        'F'
    } else {
        c
    }
}

/// A hexadecimal digit keeps its value in either case.
proof fn lemma_case_digit(c: char)
    requires
        is_hex_char(c),
    ensures
        is_hex_char(hex_lower(c)),
        is_hex_char(hex_upper(c)),
        hex_digit_value(hex_lower(c) as u8) == hex_digit_value(c as u8),
        hex_digit_value(hex_upper(c) as u8) == hex_digit_value(c as u8),
        hex_lower(c) != 'x',
        hex_upper(c) != 'x',
{
    assert(('A' as u8) == 65u8 && ('a' as u8) == 97u8);
    assert(('B' as u8) == 66u8 && ('b' as u8) == 98u8);
    assert(('C' as u8) == 67u8 && ('c' as u8) == 99u8);
    assert(('D' as u8) == 68u8 && ('d' as u8) == 100u8);
    assert(('E' as u8) == 69u8 && ('e' as u8) == 101u8);
    assert(('F' as u8) == 70u8 && ('f' as u8) == 102u8);
    assert(('x' as u8) == 120u8);
}

/// The number of a digit string is unchanged by changing the case of its digits.
proof fn lemma_case_value(t: Seq<char>, f: spec_fn(char) -> char)
    requires
        forall|i: int| 0 <= i < t.len() ==> is_hex_char(#[trigger] t[i]),
        forall|c: char|
            is_hex_char(c) ==> #[trigger] hex_digit_value(f(c) as u8) == hex_digit_value(c as u8),
    ensures
        hex_value(t.map_values(f)) == hex_value(t),
    decreases t.len(),
{
    if t.len() > 0 {
        lemma_case_value(t.drop_last(), f);
        assert(t.map_values(f).drop_last() =~= t.drop_last().map_values(f));
        assert(is_hex_char(t.last()));
        assert(hex_digit_value(f(t.last()) as u8) == hex_digit_value(t.last() as u8));
    }
}

/// A digit string without "0x" prefix is left alone by `strip_0x`.
proof fn lemma_no_prefix(t: Seq<char>)
    requires
        forall|i: int| 0 <= i < t.len() ==> is_hex_char(#[trigger] t[i]),
    ensures
        strip_0x(t) == t,
{
    if t.len() >= 2 {
        assert(is_hex_char(t[1]));
        assert(('x' as u8) == 120u8);
    }
}

/// Hexadecimal digits are case-insensitive: a digit string written in upper case and in lower
/// case is accepted alike and denotes the same scalar.
pub proof fn law_hex_case_insensitive(t: Seq<char>)
    requires
        forall|i: int| 0 <= i < t.len() ==> is_hex_char(#[trigger] t[i]),
        t.len() <= 64 || t.len() % 2 == 0,
    ensures
        hex_scalar_input(t.map_values(|c: char| hex_upper(c))),
        hex_scalar_input(t.map_values(|c: char| hex_lower(c))),
        hex_scalar_value(t.map_values(|c: char| hex_upper(c)))
            == hex_scalar_value(t.map_values(|c: char| hex_lower(c))),
{
    let up = t.map_values(|c: char| hex_upper(c));
    let low = t.map_values(|c: char| hex_lower(c));
    assert forall|c: char| is_hex_char(c) implies #[trigger] hex_digit_value(hex_upper(c) as u8)
        == hex_digit_value(c as u8) by {
        lemma_case_digit(c);
    }
    assert forall|c: char| is_hex_char(c) implies #[trigger] hex_digit_value(hex_lower(c) as u8)
        == hex_digit_value(c as u8) by {
        lemma_case_digit(c);
    }
    assert forall|i: int| 0 <= i < up.len() implies is_hex_char(#[trigger] up[i]) by {
        lemma_case_digit(t[i]);
    }
    assert forall|i: int| 0 <= i < low.len() implies is_hex_char(#[trigger] low[i]) by {
        lemma_case_digit(t[i]);
    }
    lemma_no_prefix(up);
    lemma_no_prefix(low);
    lemma_case_value(t, |c: char| hex_upper(c));
    lemma_case_value(t, |c: char| hex_lower(c));
}

/// 16^n.
pub open spec fn pow16(n: nat) -> nat
    decreases n,
{
    if n == 0 {
        1
    } else {
        16 * pow16((n - 1) as nat)
    }
}

/// The lower-case hexadecimal digit of a value below 16.
pub open spec fn hex_char_of(d: nat) -> char {
    seq!['0', '1', '2', '3', '4', '5', '6', '7', '8', '9', 'a', 'b', 'c', 'd', 'e', 'f'][d as int]
}

/// The `n` lower-case hexadecimal digits of `x`, most significant first (what `hex::encode`
/// writes for the big-endian bytes of `x` when `n` is twice their number).
pub open spec fn hex_digits(x: nat, n: nat) -> Seq<char>
    decreases n,
{
    if n == 0 {
        Seq::empty()
    } else {
        hex_digits(x / 16, (n - 1) as nat).push(hex_char_of(x % 16))
    }
}

proof fn lemma_hex_char_of(d: nat)
    requires
        d < 16,
    ensures
        is_hex_char(hex_char_of(d)),
        hex_digit_value(hex_char_of(d) as u8) == d,
        hex_char_of(d) != 'x',
{
    assert(('0' as u8) == 48u8 && ('1' as u8) == 49u8 && ('2' as u8) == 50u8);
    assert(('3' as u8) == 51u8 && ('4' as u8) == 52u8 && ('5' as u8) == 53u8);
    assert(('6' as u8) == 54u8 && ('7' as u8) == 55u8 && ('8' as u8) == 56u8);
    assert(('9' as u8) == 57u8 && ('a' as u8) == 97u8 && ('b' as u8) == 98u8);
    assert(('c' as u8) == 99u8 && ('d' as u8) == 100u8 && ('e' as u8) == 101u8);
    assert(('f' as u8) == 102u8);
}

/// The digits of a number below 16^n stand for it.
proof fn lemma_hex_digits(x: nat, n: nat)
    requires
        x < pow16(n),
    ensures
        hex_digits(x, n).len() == n,
        forall|i: int| 0 <= i < n ==> is_hex_char(#[trigger] hex_digits(x, n)[i]),
        hex_value(hex_digits(x, n)) == x,
    decreases n,
{
    if n > 0 {
        let p = pow16((n - 1) as nat);
        assert(x / 16 < p) by (nonlinear_arith)
            requires
                x < 16 * p,
        ;
        lemma_hex_digits(x / 16, (n - 1) as nat);
        lemma_hex_char_of(x % 16);
        let d = hex_digits(x, n);
        assert(d.drop_last() =~= hex_digits(x / 16, (n - 1) as nat));
        assert(x == (x / 16) * 16 + x % 16);
        assert forall|i: int| 0 <= i < n implies is_hex_char(#[trigger] d[i]) by {
            if i < n - 1 {
                assert(d[i] == hex_digits(x / 16, (n - 1) as nat)[i]);
            }
        }
    }
}

/// A scalar written as "0x" and the 64 lower-case hexadecimal digits of its value (as
/// `hex::encode` of its 32 big-endian bytes gives) parses back to the same scalar.
pub proof fn law_hex_round_trip(x: nat)
    requires
        x < modulus(),
    ensures
        hex_scalar_input(seq!['0', 'x'] + hex_digits(x, 64)),
        hex_scalar_value(seq!['0', 'x'] + hex_digits(x, 64)) == x,
{
    reveal_with_fuel(pow16, 65);
    assert(modulus() < pow16(64));
    lemma_hex_digits(x, 64);
    let d = hex_digits(x, 64);
    lemma_no_prefix(d);
    law_hex_prefix_ignored(d);
    vstd::arithmetic::div_mod::lemma_small_mod(x, modulus());
}

/// `hex::decode` (hex 0.4).
/// Trusted: it succeeds exactly on an even number of ASCII hexadecimal digits, and then gives
/// one byte per pair of digits, high nibble first; otherwise it returns an error.
#[verifier::external_body]
fn hex_decode(data: &[u8]) -> (r: Result<Vec<u8>, ::hex::FromHexError>)
    ensures
        r is Ok <==> hex_decodable(data@),
        r matches Ok(v) ==> v@ == hex_decoded(data@),
{
    ::hex::decode(data)
}

/// `PrimeField::from_be_bytes_mod_order` for `ark_bn254::Fr`.
/// Trusted: the result is the big-endian number of the bytes reduced modulo r,
/// returned as its canonical limbs.
#[verifier::external_body]
fn fr_from_be_bytes_mod_order(bytes: &[u8]) -> (r: FieldElement)
    ensures
        r.wf(),
        r.value() == be_value(bytes@) % modulus(),
{
    FieldElement { limbs: Fr::from_be_bytes_mod_order(bytes).into_repr().0 }
}

/// The error type of `hex::decode`.
#[verifier::external_type_specification]
#[verifier::external_body]
pub struct ExFromHexError(::hex::FromHexError);

} // verus!
