use sha2::Digest;
use vstd::prelude::*;

verus! {

/// The SHA-256 digest of a byte sequence.
pub uninterp spec fn sha256_of(data: Seq<u8>) -> Seq<u8>;

/// Relies on sha2::Sha256: `finalize` after one `update` gives the 32-byte
/// SHA-256 digest of the bytes handed to `update`.
#[verifier::external_body]
pub fn sha256(data: &[u8]) -> (r: Vec<u8>)
    ensures
        r@ == sha256_of(data@),
        r@.len() == 32,
{
    let mut hasher = sha2::Sha256::new();
    hasher.update(data);
    hasher.finalize()[..].to_vec()
}

/// Relies on String::push: the character is appended at the end.
#[verifier::external_body]
fn push_char(s: &mut String, c: char)
    ensures
        final(s)@ == old(s)@.push(c),
{
    s.push(c)
}

/// Lower-case hexadecimal digit of a value below sixteen.
pub open spec fn hex_char(d: nat) -> char {
    if d < 10 {
        (d + 48) as char
    } else {
        (d + 87) as char
    }
}

/// A byte in lower-case hexadecimal without leading zero: one digit below
/// sixteen, two otherwise.
pub open spec fn hex_of_byte(b: u8) -> Seq<char> {
    if b < 16 {
        seq![hex_char(b as nat)]
    } else {
        seq![hex_char((b / 16) as nat), hex_char((b % 16) as nat)]
    }
}

/// The concatenation of `hex_of_byte` over all bytes, in order.
pub open spec fn hex_str(bytes: Seq<u8>) -> Seq<char>
    decreases bytes.len(),
{
    if bytes.len() == 0 {
        seq![]
    } else {
        hex_str(bytes.drop_last()) + hex_of_byte(bytes.last())
    }
}

fn hex_digit(d: u8) -> (c: char)
    requires
        d < 16,
    ensures
        c == hex_char(d as nat),
{
    if d < 10 {
        (d + 48) as char
    } else {
        (d + 87) as char
    }
}

/// Renders bytes as lower-case hexadecimal, each byte without padding.
pub fn hash_to_str(hash_bytes: &[u8]) -> (r: String)
    ensures
        r@ == hex_str(hash_bytes@),
{
    let mut output = String::new();
    let mut i: usize = 0;
    while i < hash_bytes.len()
        invariant
            i <= hash_bytes@.len(),
            output@ == hex_str(hash_bytes@.subrange(0, i as int)),
        decreases hash_bytes@.len() - i,
    {
        let b = hash_bytes[i];
        if b >= 16 {
            push_char(&mut output, hex_digit(b / 16));
        }
        push_char(&mut output, hex_digit(b % 16));
        assert(hash_bytes@.subrange(0, i + 1).drop_last() == hash_bytes@.subrange(0, i as int));
        i = i + 1;
    }
    assert(hash_bytes@.subrange(0, hash_bytes@.len() as int) == hash_bytes@);
    output
}

/// Decimal ASCII digits of a natural number, most significant first.
pub open spec fn decimal(n: nat) -> Seq<u8>
    decreases n,
{
    if n < 10 {
        seq![(n + 48) as u8]
    } else {
        decimal(n / 10).push((n % 10 + 48) as u8)
    }
}

/// Appends the decimal digits of `n` to `out`.
pub fn append_decimal(out: &mut Vec<u8>, n: u64)
    ensures
        final(out)@ == old(out)@ + decimal(n as nat),
    decreases n,
{
    if n >= 10 {
        append_decimal(out, n / 10);
    }
    out.push((n % 10 + 48) as u8);
    assert(final(out)@ =~= old(out)@ + decimal(n as nat));
}

/// The `k` low-order bytes of `v`, least significant first.
pub open spec fn le_bytes(v: nat, k: nat) -> Seq<u8>
    decreases k,
{
    if k == 0 {
        seq![]
    } else {
        seq![(v % 256) as u8] + le_bytes(v / 256, (k - 1) as nat)
    }
}

/// Appends the eight little-endian bytes of `v` to `out`.
pub fn append_u64_le(out: &mut Vec<u8>, v: u64)
    ensures
        final(out)@ == old(out)@ + le_bytes(v as nat, 8),
{
    let mut x: u64 = v;
    let mut i: usize = 0;
    while i < 8
        invariant
            i <= 8,
            out@ + le_bytes(x as nat, (8 - i) as nat) == old(out)@ + le_bytes(v as nat, 8),
        decreases 8 - i,
    {
        let ghost before = out@;
        out.push((x % 256) as u8);
        assert(before + le_bytes(x as nat, (8 - i) as nat) =~= out@ + le_bytes(
            (x / 256) as nat,
            (8 - i - 1) as nat,
        ));
        x = x / 256;
        i = i + 1;
    }
    assert(out@ + le_bytes(x as nat, 0) =~= out@);
}

/// Big-endian value of a byte sequence.
pub open spec fn be_value(s: Seq<u8>) -> nat
    decreases s.len(),
{
    if s.len() == 0 {
        0
    } else {
        be_value(s.drop_last()) * 256 + s.last() as nat
    }
}

/// `256` to the power `k`.
pub open spec fn pow256(k: nat) -> nat
    decreases k,
{
    if k == 0 {
        1
    } else {
        256 * pow256((k - 1) as nat)
    }
}

proof fn lemma_be_value_bound(s: Seq<u8>)
    ensures
        be_value(s) < pow256(s.len()),
    decreases s.len(),
{
    if s.len() > 0 {
        lemma_be_value_bound(s.drop_last());
        let p = pow256((s.len() - 1) as nat);
        let v = be_value(s.drop_last());
        assert(v * 256 + s.last() < 256 * p) by (nonlinear_arith)
            requires
                v < p,
                s.last() < 256,
        ;
    }
}

proof fn lemma_pow256_monotone(a: nat, b: nat)
    requires
        a <= b,
    ensures
        pow256(a) <= pow256(b),
    decreases b - a,
{
    if a < b {
        lemma_pow256_monotone(a, (b - 1) as nat);
    }
}

/// Reads the first eight bytes of `h` as a big-endian unsigned integer.
pub fn leading_u64(h: &[u8]) -> (r: u64)
    requires
        h@.len() >= 8,
    ensures
        r as nat == be_value(h@.subrange(0, 8)),
{
    let mut v: u64 = 0;
    let mut i: usize = 0;
    while i < 8
        invariant
            i <= 8,
            h@.len() >= 8,
            v as nat == be_value(h@.subrange(0, i as int)),
        decreases 8 - i,
    {
        proof {
            lemma_be_value_bound(h@.subrange(0, i as int));
            reveal_with_fuel(pow256, 8);
            lemma_pow256_monotone(i as nat, 7);
            assert(h@.subrange(0, i + 1).drop_last() == h@.subrange(0, i as int));
        }
        v = v * 256 + h[i] as u64;
        i = i + 1;
    }
    v
}

} // verus!
