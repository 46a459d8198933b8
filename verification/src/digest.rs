//! SHA-256 digests and their lower-case hexadecimal text.
use sha2::Digest;
use vstd::prelude::*;

verus! {

/// The SHA-256 digest of `data`.
pub uninterp spec fn sha256(data: Seq<u8>) -> Seq<u8>;

/// `sha2::Sha256::digest`: the SHA-256 digest of `data`, 32 bytes long.
#[verifier::external_body]
pub(crate) fn sha256_digest(data: &[u8]) -> (d: Vec<u8>)
    ensures
        d@ == sha256(data@),
        d@.len() == 32,
{
    sha2::Sha256::digest(data).to_vec()
}

/// Lower-case hexadecimal digit for a value below 16.
pub open spec fn hex_digit(v: u8) -> char {
    if v < 10 {
        ((v as u32) + 48) as char
    } else {
        ((v as u32) + 87) as char
    }
}

/// Two lower-case hex digits per byte (`format!("{:x}", digest)`).
pub open spec fn hex_lower(bytes: Seq<u8>) -> Seq<char>
    decreases bytes.len(),
{
    if bytes.len() == 0 {
        Seq::empty()
    } else {
        hex_lower(bytes.drop_last()) + seq![hex_digit(bytes.last() / 16), hex_digit(bytes.last() % 16)]
    }
}

/// A lower-case hex digit.
pub open spec fn is_lower_hex_char(c: char) -> bool {
    ('0' <= c && c <= '9') || ('a' <= c && c <= 'f')
}

/// Hex text is twice as long as its bytes and uses only lower-case hex digits.
pub proof fn lemma_hex_lower(bytes: Seq<u8>)
    ensures
        hex_lower(bytes).len() == 2 * bytes.len(),
        forall|i: int| 0 <= i < hex_lower(bytes).len() ==> is_lower_hex_char(#[trigger] hex_lower(bytes)[i]),
    decreases bytes.len(),
{
    if bytes.len() > 0 {
        lemma_hex_lower(bytes.drop_last());
        let a = hex_lower(bytes.drop_last());
        let b = seq![hex_digit(bytes.last() / 16), hex_digit(bytes.last() % 16)];
        assert forall|i: int| 0 <= i < (a + b).len() implies is_lower_hex_char(#[trigger] (a + b)[i]) by {
            if i < a.len() {
                assert((a + b)[i] == a[i]);
            } else {
                assert((a + b)[i] == b[i - a.len()]);
            }
        }
    }
}

fn hex_char(v: u8) -> (c: char)
    requires
        v < 16,
    ensures
        c == hex_digit(v),
{
    if v < 10 {
        ((v + 48) as u8) as char
    } else {
        ((v + 87) as u8) as char
    }
}

/// Appends `hex_lower(bytes)` to `out`.
pub fn push_hex(out: &mut Vec<char>, bytes: &[u8])
    ensures
        final(out)@ == old(out)@ + hex_lower(bytes@),
{
    let mut i: usize = 0;
    assert(bytes@.take(0) =~= Seq::<u8>::empty());
    assert(old(out)@ + hex_lower(Seq::<u8>::empty()) =~= old(out)@);
    while i < bytes.len()
        invariant
            i <= bytes@.len(),
            out@ == old(out)@ + hex_lower(bytes@.take(i as int)),
        decreases bytes.len() - i,
    {
        let b = bytes[i];
        out.push(hex_char(b / 16));
        out.push(hex_char(b % 16));
        assert(bytes@.take(i + 1).drop_last() =~= bytes@.take(i as int));
        assert(old(out)@ + hex_lower(bytes@.take(i + 1)) =~= old(out)@ + hex_lower(bytes@.take(i as int)) + seq![hex_digit(b / 16), hex_digit(b % 16)]);
        i += 1;
    }
    assert(bytes@.take(bytes@.len() as int) =~= bytes@);
}

/// Little-endian bytes of the low `n` bytes of `v` (`to_le_bytes`).
pub open spec fn le_bytes(v: nat, n: nat) -> Seq<u8>
    decreases n,
{
    if n == 0 {
        Seq::empty()
    } else {
        seq![(v % 256) as u8] + le_bytes(v / 256, (n - 1) as nat)
    }
}

/// `le_bytes(v, n)` has `n` bytes.
pub proof fn lemma_le_bytes_len(v: nat, n: nat)
    ensures
        le_bytes(v, n).len() == n,
    decreases n,
{
    if n > 0 {
        lemma_le_bytes_len(v / 256, (n - 1) as nat);
    }
}

/// Values below `256^n` have distinct `n`-byte encodings.
pub proof fn lemma_le_bytes_injective(a: nat, b: nat, n: nat)
    requires
        a < vstd::arithmetic::power::pow(256, n),
        b < vstd::arithmetic::power::pow(256, n),
        le_bytes(a, n) == le_bytes(b, n),
    ensures
        a == b,
    decreases n,
{
    vstd::arithmetic::power::lemma_pow_positive(256, n);
    if n == 0 {
        vstd::arithmetic::power::lemma_pow0(256);
    } else {
        let p = vstd::arithmetic::power::pow(256, (n - 1) as nat);
        vstd::arithmetic::power::lemma_pow_positive(256, (n - 1) as nat);
        assert(vstd::arithmetic::power::pow(256, n) == 256 * p) by {
            vstd::arithmetic::power::lemma_pow_adds(256, 1, (n - 1) as nat);
            vstd::arithmetic::power::lemma_pow1(256);
        }
        lemma_le_bytes_len(a / 256, (n - 1) as nat);
        lemma_le_bytes_len(b / 256, (n - 1) as nat);
        assert(le_bytes(a, n)[0] == le_bytes(b, n)[0]);
        assert(le_bytes(a, n)[0] == (a % 256) as u8);
        assert(le_bytes(b, n)[0] == (b % 256) as u8);
        assert(0 <= a % 256 < 256);
        assert(0 <= b % 256 < 256);
        assert(le_bytes(a, n).drop_first() =~= le_bytes(a / 256, (n - 1) as nat));
        assert(le_bytes(b, n).drop_first() =~= le_bytes(b / 256, (n - 1) as nat));
        assert(a / 256 < p) by (nonlinear_arith)
            requires
                a < 256 * p,
                p > 0,
        ;
        assert(b / 256 < p) by (nonlinear_arith)
            requires
                b < 256 * p,
                p > 0,
        ;
        lemma_le_bytes_injective(a / 256, b / 256, (n - 1) as nat);
        assert(a % 256 == b % 256);
        assert(a == 256 * (a / 256) + a % 256) by (nonlinear_arith);
        assert(b == 256 * (b / 256) + b % 256) by (nonlinear_arith);
    }
}

/// Appends `le_bytes(v, n)` to `out`.
pub fn push_le(out: &mut Vec<u8>, v: u64, n: usize)
    requires
        n <= 8,
    ensures
        final(out)@ == old(out)@ + le_bytes(v as nat, n as nat),
{
    let mut x = v;
    let mut k: usize = 0;
    assert(old(out)@ =~= old(out)@ + Seq::<u8>::empty());
    while k < n
        invariant
            k <= n <= 8,
            old(out)@ + le_bytes(v as nat, n as nat) == out@ + le_bytes(x as nat, (n - k) as nat),
        decreases n - k,
    {
        let ghost before = out@;
        out.push((x % 256) as u8);
        assert(le_bytes(x as nat, (n - k) as nat) == seq![(x % 256) as u8] + le_bytes((x / 256) as nat, (n - k - 1) as nat));
        assert(before + le_bytes(x as nat, (n - k) as nat) =~= out@ + le_bytes((x / 256) as nat, (n - k - 1) as nat));
        x = x / 256;
        k += 1;
    }
    assert(le_bytes(x as nat, 0) =~= Seq::<u8>::empty());
    assert(out@ + Seq::<u8>::empty() =~= out@);
}

} // verus!
