//! SHA-256 digests and their hexadecimal form.

use vstd::prelude::*;

verus! {

/// The SHA-256 digest of a byte string.
pub uninterp spec fn sha256_of(bytes: Seq<u8>) -> Seq<u8>;

/// `sha2::Sha256::digest`: thirty-two bytes that depend on the input alone.
#[verifier::external_body]
pub(crate) fn sha256(bytes: &[u8]) -> (digest: Vec<u8>)
    ensures
        digest@ == sha256_of(bytes@),
        digest@.len() == 32,
{
    <sha2::Sha256 as sha2::Digest>::digest(bytes).to_vec()
}

/// A hexadecimal digit, in lower case.
pub open spec fn hex_digit(n: int) -> char {
    if n < 10 {
        (48 + n) as char
    } else {
        (87 + n) as char
    }
}

/// Two lower-case hexadecimal digits for each byte, the high half first.
pub open spec fn hex_of(bytes: Seq<u8>) -> Seq<char> {
    Seq::new(
        2 * bytes.len(),
        |i: int|
            if i % 2 == 0 {
                hex_digit(bytes[i / 2] as int / 16)
            } else {
                hex_digit(bytes[i / 2] as int % 16)
            },
    )
}

/// `hex::encode`: each byte as two lower-case hexadecimal digits.
#[verifier::external_body]
pub(crate) fn hex_encode(bytes: &[u8]) -> (text: String)
    ensures
        text@ == hex_of(bytes@),
{
    hex::encode(bytes)
}

/// The hexadecimal SHA-256 digest of a byte string.
pub open spec fn sha256_hex_of(bytes: Seq<u8>) -> Seq<char> {
    hex_of(sha256_of(bytes))
}

pub fn sha256_hex(input: &[u8]) -> (text: String)
    ensures
        text@ == sha256_hex_of(input@),
        text@.len() == 64,
{
    hex_encode(sha256(input).as_slice())
}

/// The hexadecimal SHA-256 digest of a text in UTF-8.
pub open spec fn text_digest_of(s: Seq<char>) -> Seq<char> {
    sha256_hex_of(vstd::utf8::encode_utf8(s))
}

pub fn text_digest(s: &str) -> (d: String)
    ensures
        d@ == text_digest_of(s@),
        d@.len() == 64,
{
    sha256_hex(s.as_bytes())
}

/// Whether a text is the hexadecimal form of that many bytes.
pub open spec fn is_hex_of(s: Seq<char>, count: nat) -> bool {
    exists|bytes: Seq<u8>| bytes.len() == count && s == #[trigger] hex_of(bytes)
}

/// `rand::rng` and `RngCore::fill_bytes`: that many bytes from the thread's
/// generator. They depend on chance, so nothing is said of which ones.
#[verifier::external_body]
pub(crate) fn random_bytes(n: usize) -> (v: Vec<u8>)
    ensures
        v@.len() == n,
{
    let mut v = vec![0u8; n];
    rand::RngCore::fill_bytes(&mut rand::rng(), v.as_mut_slice());
    v
}

/// The hexadecimal forms of two byte strings agree only where the bytes do.
pub proof fn law_hex_injective(a: Seq<u8>, b: Seq<u8>)
    requires
        hex_of(a) == hex_of(b),
    ensures
        a == b,
{
    assert(hex_of(a).len() == 2 * a.len());
    assert(hex_of(b).len() == 2 * b.len());
    assert forall|i: int| 0 <= i < a.len() implies a[i] == b[i] by {
        let high = 2 * i;
        let low = 2 * i + 1;
        assert(high / 2 == i && high % 2 == 0);
        assert(low / 2 == i && low % 2 == 1);
        assert(hex_of(a)[high] == hex_digit(a[i] as int / 16));
        assert(hex_of(b)[high] == hex_digit(b[i] as int / 16));
        assert(hex_of(a)[low] == hex_digit(a[i] as int % 16));
        assert(hex_of(b)[low] == hex_digit(b[i] as int % 16));
        lemma_hex_digit_injective(a[i] as int / 16, b[i] as int / 16);
        lemma_hex_digit_injective(a[i] as int % 16, b[i] as int % 16);
    }
    assert(a =~= b);
}

proof fn lemma_hex_digit_injective(m: int, n: int)
    requires
        0 <= m < 16,
        0 <= n < 16,
        hex_digit(m) == hex_digit(n),
    ensures
        m == n,
{
}

/// The eight bytes of a number, lowest first.
pub open spec fn le_bytes_of(n: nat, count: nat) -> Seq<u8>
    decreases count,
{
    if count == 0 {
        seq![]
    } else {
        seq![(n % 256) as u8] + le_bytes_of(n / 256, (count - 1) as nat)
    }
}

/// Append the eight bytes of `n`, lowest first.
pub fn push_le_bytes(out: &mut Vec<u8>, n: u64)
    ensures
        final(out)@ == old(out)@ + le_bytes_of(n as nat, 8),
{
    let mut rest: u64 = n;
    let mut left: u8 = 8;
    while left > 0
        invariant
            left <= 8,
            out@ + le_bytes_of(rest as nat, left as nat) == old(out)@ + le_bytes_of(n as nat, 8),
        decreases left,
    {
        let ghost before = out@;
        let b: u8 = (rest % 256) as u8;
        out.push(b);
        assert(before + (seq![b] + le_bytes_of(rest as nat / 256, (left - 1) as nat)) =~= out@
            + le_bytes_of(rest as nat / 256, (left - 1) as nat));
        rest = rest / 256;
        left = left - 1;
    }
    assert(out@ + Seq::<u8>::empty() =~= out@);
}

/// The value of a hexadecimal digit.
pub open spec fn digit_value(c: char) -> int {
    if '0' <= c <= '9' {
        c as int - '0' as int
    } else {
        c as int - 'a' as int + 10
    }
}

/// Two digits stand for each byte, the higher first, and both are in lower
/// case.
pub proof fn law_hex_is_read_back(bytes: Seq<u8>, i: int)
    requires
        0 <= i < bytes.len(),
    ensures
        hex_of(bytes).len() == 2 * bytes.len(),
        16 * digit_value(hex_of(bytes)[2 * i]) + digit_value(hex_of(bytes)[2 * i + 1]) == bytes[i],
        '0' <= hex_of(bytes)[2 * i] <= '9' || 'a' <= hex_of(bytes)[2 * i] <= 'f',
        '0' <= hex_of(bytes)[2 * i + 1] <= '9' || 'a' <= hex_of(bytes)[2 * i + 1] <= 'f',
{
    assert((2 * i) / 2 == i && (2 * i) % 2 == 0);
    assert((2 * i + 1) / 2 == i && (2 * i + 1) % 2 == 1);
}

/// A number is written in bytes with the lowest first, as many as were asked
/// for.
pub proof fn law_bytes_stand_lowest_first(n: nat, count: nat)
    ensures
        le_bytes_of(n, count) == crate::pmtiles::header::field(n, count),
        le_bytes_of(n, count).len() == count,
        n < crate::pmtiles::header::room(count) ==> crate::pmtiles::header::le_value(
            le_bytes_of(n, count),
            0,
            count,
        ) == n,
    decreases count,
{
    if count > 0 {
        law_bytes_stand_lowest_first(n / 256, (count - 1) as nat);
    }
    let bytes = le_bytes_of(n, count);
    assert(bytes =~= crate::pmtiles::header::field(n, count));
    if n < crate::pmtiles::header::room(count) {
        assert(bytes.subrange(0, count as int) =~= bytes);
        crate::pmtiles::header::lemma_field_read(bytes, 0, n, count);
    }
}

} // verus!
