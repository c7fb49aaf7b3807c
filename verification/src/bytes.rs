//! Byte-level helpers shared by the ledger: little-endian integer
//! encodings, length-prefixed framing, byte-sequence equality and a
//! lowercase hexadecimal rendering.

use vstd::prelude::*;

verus! {

/// The `n` low-order bytes of `x`, least significant first.
pub open spec fn le_bytes(x: nat, n: nat) -> Seq<u8>
    decreases n,
{
    if n == 0 {
        Seq::empty()
    } else {
        seq![(x % 256) as u8] + le_bytes(x / 256, (n - 1) as nat)
    }
}

/// A `u64` as its eight little-endian bytes.
pub open spec fn u64_le(x: u64) -> Seq<u8> {
    le_bytes(x as nat, 8)
}

/// A `u128` as its sixteen little-endian bytes.
pub open spec fn u128_le(x: u128) -> Seq<u8> {
    le_bytes(x as nat, 16)
}

/// A byte sequence preceded by its length as a little-endian `u64`.
pub open spec fn len_prefixed(s: Seq<u8>) -> Seq<u8> {
    u64_le(s.len() as u64) + s
}

pub proof fn lemma_le_bytes_len(x: nat, n: nat)
    ensures
        le_bytes(x, n).len() == n,
    decreases n,
{
    if n > 0 {
        lemma_le_bytes_len(x / 256, (n - 1) as nat);
    }
}

/// The value read back from a little-endian byte sequence.
pub open spec fn le_value(s: Seq<u8>) -> nat
    decreases s.len(),
{
    if s.len() == 0 {
        0
    } else {
        (s[0] + 256 * le_value(s.drop_first())) as nat
    }
}

/// 256 to the power `n`.
pub open spec fn pow256(n: nat) -> nat
    decreases n,
{
    if n == 0 {
        1
    } else {
        256 * pow256((n - 1) as nat)
    }
}

/// Reading back the little-endian encoding of a value below `256^n`
/// returns the value itself.
pub proof fn lemma_le_roundtrip(x: nat, n: nat)
    requires
        x < pow256(n),
    ensures
        le_value(le_bytes(x, n)) == x,
    decreases n,
{
    if n == 0 {
        assert(x == 0);
    } else {
        let s = le_bytes(x, n);
        lemma_le_bytes_len(x / 256, (n - 1) as nat);
        assert(s.drop_first() =~= le_bytes(x / 256, (n - 1) as nat));
        assert(x / 256 < pow256((n - 1) as nat)) by (nonlinear_arith)
            requires
                x < pow256(n),
                pow256(n) == 256 * pow256((n - 1) as nat),
        ;
        lemma_le_roundtrip(x / 256, (n - 1) as nat);
        assert(x % 256 + 256 * (x / 256) == x) by (nonlinear_arith);
    }
}

pub proof fn lemma_pow256_monotone(m: nat, n: nat)
    requires
        m <= n,
    ensures
        pow256(m) <= pow256(n),
        pow256(m) >= 1,
    decreases n,
{
    if n > 0 {
        if m == n {
            lemma_pow256_monotone((n - 1) as nat, (n - 1) as nat);
        } else {
            lemma_pow256_monotone(m, (n - 1) as nat);
        }
    }
}

pub proof fn lemma_pow256_8()
    ensures
        pow256(8) == 0x10000000000000000,
{
    assert(pow256(0) == 1);
    assert(pow256(1) == 256);
    assert(pow256(2) == 0x10000);
    assert(pow256(3) == 0x1000000);
    assert(pow256(4) == 0x100000000);
    assert(pow256(5) == 0x10000000000);
    assert(pow256(6) == 0x1000000000000);
    assert(pow256(7) == 0x100000000000000);
}

pub proof fn lemma_pow256_16()
    ensures
        pow256(16) == 0x100000000000000000000000000000000,
{
    lemma_pow256_8();
    assert(pow256(9) == 0x1000000000000000000);
    assert(pow256(10) == 0x100000000000000000000);
    assert(pow256(11) == 0x10000000000000000000000);
    assert(pow256(12) == 0x1000000000000000000000000);
    assert(pow256(13) == 0x100000000000000000000000000);
    assert(pow256(14) == 0x10000000000000000000000000000);
    assert(pow256(15) == 0x1000000000000000000000000000000);
}

/// Every fixed-width byte string is the canonical little-endian
/// encoding of the value read from it.
pub proof fn lemma_le_bytes_canonical(s: Seq<u8>)
    ensures
        le_bytes(le_value(s), s.len() as nat) == s,
    decreases s.len(),
{
    if s.len() > 0 {
        let rest = s.drop_first();
        let v = le_value(s);
        assert(v == s[0] + 256 * le_value(rest));
        assert(v % 256 == s[0] && v / 256 == le_value(rest)) by (nonlinear_arith)
            requires
                v == s[0] + 256 * le_value(rest),
                s[0] < 256,
        ;
        lemma_le_bytes_canonical(rest);
        assert(le_bytes(v, s.len() as nat) =~= s);
    }
}

/// Little-endian encoding of a `u64`.
pub fn u64_to_le(x: u64) -> (r: Vec<u8>)
    ensures
        r@ == u64_le(x),
        r@.len() == 8,
{
    proof {
        lemma_le_bytes_len(x as nat, 8);
    }
    let mut r: Vec<u8> = Vec::new();
    let mut cur: u64 = x;
    let mut i: usize = 0;
    while i < 8
        invariant
            i <= 8,
            r@.len() == i,
            r@ + le_bytes(cur as nat, (8 - i) as nat) =~= le_bytes(x as nat, 8),
        decreases 8 - i,
    {
        proof {
            lemma_le_bytes_len(cur as nat / 256, (8 - i - 1) as nat);
        }
        r.push((cur % 256) as u8);
        cur = cur / 256;
        i = i + 1;
        proof {
            assert(r@ + le_bytes(cur as nat, (8 - i) as nat) =~= le_bytes(x as nat, 8));
        }
    }
    proof {
        assert(r@ =~= le_bytes(x as nat, 8));
    }
    r
}

/// Little-endian encoding of a `u128`.
pub fn u128_to_le(x: u128) -> (r: Vec<u8>)
    ensures
        r@ == u128_le(x),
        r@.len() == 16,
{
    proof {
        lemma_le_bytes_len(x as nat, 16);
    }
    let mut r: Vec<u8> = Vec::new();
    let mut cur: u128 = x;
    let mut i: usize = 0;
    while i < 16
        invariant
            i <= 16,
            r@.len() == i,
            r@ + le_bytes(cur as nat, (16 - i) as nat) =~= le_bytes(x as nat, 16),
        decreases 16 - i,
    {
        proof {
            lemma_le_bytes_len(cur as nat / 256, (16 - i - 1) as nat);
        }
        r.push((cur % 256) as u8);
        cur = cur / 256;
        i = i + 1;
        proof {
            assert(r@ + le_bytes(cur as nat, (16 - i) as nat) =~= le_bytes(x as nat, 16));
        }
    }
    proof {
        assert(r@ =~= le_bytes(x as nat, 16));
    }
    r
}

/// Appends `src` to `dst`, byte for byte.
pub fn append_bytes(dst: &mut Vec<u8>, src: &Vec<u8>)
    ensures
        final(dst)@ == old(dst)@ + src@,
{
    let mut i: usize = 0;
    while i < src.len()
        invariant
            i <= src@.len(),
            dst@ =~= old(dst)@ + src@.subrange(0, i as int),
        decreases src@.len() - i,
    {
        dst.push(src[i]);
        i = i + 1;
    }
    proof {
        assert(dst@ =~= old(dst)@ + src@);
    }
}

/// Appends `src` preceded by its length as a little-endian `u64`.
pub fn append_len_prefixed(dst: &mut Vec<u8>, src: &Vec<u8>)
    ensures
        final(dst)@ == old(dst)@ + len_prefixed(src@),
{
    let len = u64_to_le(src.len() as u64);
    append_bytes(dst, &len);
    append_bytes(dst, src);
    proof {
        assert(dst@ =~= old(dst)@ + len_prefixed(src@));
    }
}

/// Copies a byte vector.
pub fn copy_bytes(src: &Vec<u8>) -> (r: Vec<u8>)
    ensures
        r@ == src@,
{
    let mut r: Vec<u8> = Vec::new();
    append_bytes(&mut r, src);
    r
}

/// Byte-wise equality of two byte vectors.
pub fn bytes_eq(a: &Vec<u8>, b: &Vec<u8>) -> (r: bool)
    ensures
        r == (a@ == b@),
{
    if a.len() != b.len() {
        return false;
    }
    let mut i: usize = 0;
    while i < a.len()
        invariant
            i <= a@.len(),
            a@.len() == b@.len(),
            forall|j: int| 0 <= j < i ==> a@[j] == b@[j],
        decreases a@.len() - i,
    {
        if a[i] != b[i] {
            return false;
        }
        i = i + 1;
    }
    proof {
        assert(a@ =~= b@);
    }
    true
}

/// The lowercase hexadecimal digit for a value below sixteen.
pub open spec fn hex_digit(n: u8) -> char {
    if n == 0 { '0' }
    else if n == 1 { '1' }
    else if n == 2 { '2' }
    else if n == 3 { '3' }
    else if n == 4 { '4' }
    else if n == 5 { '5' }
    else if n == 6 { '6' }
    else if n == 7 { '7' }
    else if n == 8 { '8' }
    else if n == 9 { '9' }
    else if n == 10 { 'a' }
    else if n == 11 { 'b' }
    else if n == 12 { 'c' }
    else if n == 13 { 'd' }
    else if n == 14 { 'e' }
    else { 'f' }
}

/// The lowercase hexadecimal rendering of a byte sequence, two digits
/// per byte, most significant digit first.
pub open spec fn hex_of(s: Seq<u8>) -> Seq<char>
    decreases s.len(),
{
    if s.len() == 0 {
        Seq::empty()
    } else {
        seq![hex_digit(s[0] / 16), hex_digit(s[0] % 16)] + hex_of(s.drop_first())
    }
}

fn nibble_str(n: u8) -> (s: &'static str)
    requires
        n < 16,
    ensures
        s@ == seq![hex_digit(n)],
{
    proof {
        reveal_strlit("0");
        reveal_strlit("1");
        reveal_strlit("2");
        reveal_strlit("3");
        reveal_strlit("4");
        reveal_strlit("5");
        reveal_strlit("6");
        reveal_strlit("7");
        reveal_strlit("8");
        reveal_strlit("9");
        reveal_strlit("a");
        reveal_strlit("b");
        reveal_strlit("c");
        reveal_strlit("d");
        reveal_strlit("e");
        reveal_strlit("f");
    }
    let s = match n {
        0 => "0",
        1 => "1",
        2 => "2",
        3 => "3",
        4 => "4",
        5 => "5",
        6 => "6",
        7 => "7",
        8 => "8",
        9 => "9",
        10 => "a",
        11 => "b",
        12 => "c",
        13 => "d",
        14 => "e",
        _ => "f",
    };
    proof {
        assert(s@ =~= seq![hex_digit(n)]);
    }
    s
}

/// Renders a byte vector in lowercase hexadecimal.
pub fn to_hex(bytes: &Vec<u8>) -> (r: String)
    ensures
        r@ == hex_of(bytes@),
{
    let mut r = String::new();
    let mut i: usize = 0;
    proof {
        assert(bytes@.subrange(0, bytes@.len() as int) =~= bytes@);
    }
    while i < bytes.len()
        invariant
            i <= bytes@.len(),
            r@ + hex_of(bytes@.subrange(i as int, bytes@.len() as int)) =~= hex_of(bytes@),
        decreases bytes@.len() - i,
    {
        let b = bytes[i];
        let ghost tail = bytes@.subrange(i as int, bytes@.len() as int);
        let r2 = r.concat(nibble_str(b / 16));
        let r3 = r2.concat(nibble_str(b % 16));
        r = r3;
        i = i + 1;
        proof {
            assert(tail.drop_first() =~= bytes@.subrange(i as int, bytes@.len() as int));
            assert(r@ + hex_of(bytes@.subrange(i as int, bytes@.len() as int)) =~= hex_of(
                bytes@,
            ));
        }
    }
    proof {
        assert(bytes@.subrange(bytes@.len() as int, bytes@.len() as int) =~= Seq::<u8>::empty());
        assert(r@ =~= hex_of(bytes@));
    }
    r
}

} // verus!
