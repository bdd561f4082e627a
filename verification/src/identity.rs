//! Stable, unique names for generated registration thunks.
//!
//! The identity of a thunk is derived from the declaration's own name plus
//! its source location (file path and line): the three are joined into a
//! length-prefixed byte string, digested with SHA-256, and the digest is
//! rendered as a hexadecimal identifier. The same inputs always give the
//! same identity; declarations at different lines of the same file feed the
//! digest different inputs, so their identities collide only if the digest
//! itself collides.

use vstd::prelude::*;
use crate::bytes::push_bytes;

verus! {

/// What the SHA-256 digest of a byte string is. The digest depends on the
/// input bytes alone, so it can stand here as a pure function.
pub uninterp spec fn sha256_of(data: Seq<u8>) -> Seq<u8>;

/// Relies on sha2::Sha256::digest: computes the SHA-256 digest of the input
/// bytes, a function of those bytes alone, 32 bytes long.
#[verifier::external_body]
fn sha256(data: &[u8]) -> (r: Vec<u8>)
    ensures
        r@ == sha256_of(data@),
        r@.len() == 32,
{
    <sha2::Sha256 as sha2::Digest>::digest(data).to_vec()
}

/// The decimal digits of `n`, most significant first, no sign, no leading
/// zero (except for `n == 0` itself).
pub open spec fn dec_digits(n: nat) -> Seq<u8>
    decreases n,
{
    if n < 10 {
        seq![(48 + n) as u8]
    } else {
        dec_digits(n / 10).push((48 + n % 10) as u8)
    }
}

/// Appends the decimal digits of `n` to `out`.
fn push_dec(out: &mut Vec<u8>, n: u64)
    ensures
        final(out)@ == old(out)@ + dec_digits(n as nat),
    decreases n,
{
    if n < 10 {
        out.push(48 + (n as u8));
        proof {
            assert(final(out)@ =~= old(out)@ + dec_digits(n as nat));
        }
    } else {
        push_dec(out, n / 10);
        out.push(48 + ((n % 10) as u8));
        proof {
            assert(final(out)@ =~= old(out)@ + dec_digits(n as nat));
        }
    }
}

/// The hexadecimal digit for a value below 16, lower case.
pub open spec fn hex_digit(d: u8) -> u8 {
    if d < 10 {
        (48 + d) as u8
    } else {
        (87 + d) as u8
    }
}

/// The lower-case hexadecimal rendering of a byte string, two digits per
/// byte, in order.
pub open spec fn hex_of(s: Seq<u8>) -> Seq<u8>
    decreases s.len(),
{
    if s.len() == 0 {
        Seq::empty()
    } else {
        hex_of(s.drop_last()) + seq![hex_digit(s.last() / 16), hex_digit(s.last() % 16)]
    }
}

/// Appends the hexadecimal rendering of `s` to `out`.
fn push_hex(out: &mut Vec<u8>, s: &[u8])
    ensures
        final(out)@ == old(out)@ + hex_of(s@),
{
    let mut i: usize = 0;
    while i < s.len()
        invariant
            i <= s@.len(),
            out@ =~= old(out)@ + hex_of(s@.subrange(0, i as int)),
        decreases s@.len() - i,
    {
        let b = s[i];
        let hi = b / 16;
        let lo = b % 16;
        out.push(if hi < 10 { 48 + hi } else { 87 + hi });
        out.push(if lo < 10 { 48 + lo } else { 87 + lo });
        i += 1;
        proof {
            assert(s@.subrange(0, i as int).drop_last() =~= s@.subrange(0, i - 1));
            assert(out@ =~= old(out)@ + hex_of(s@.subrange(0, i as int)));
        }
    }
    proof {
        assert(s@.subrange(0, s@.len() as int) =~= s@);
    }
}

/// The digest input for a declaration: name, path and line, each length
/// prefixed so that the three fields cannot blur into one another.
pub open spec fn encode_location(name: Seq<u8>, path: Seq<u8>, line: u64) -> Seq<u8> {
    dec_digits(name.len()) + seq![58u8] + name + dec_digits(path.len()) + seq![58u8] + path
        + dec_digits(line as nat)
}

/// The fixed prefix of every generated identity: `__butler_`.
pub open spec fn identity_prefix() -> Seq<u8> {
    seq![95u8, 95, 98, 117, 116, 108, 101, 114, 95]
}

/// The generated identity: the prefix followed by the hexadecimal SHA-256
/// digest of the encoded location.
pub open spec fn identity_spec(name: Seq<u8>, path: Seq<u8>, line: u64) -> Seq<u8> {
    identity_prefix() + hex_of(sha256_of(encode_location(name, path, line)))
}

/// Derives the identity of the thunk generated for the declaration `name`
/// at `path:line`. Deterministic: the same three inputs always give the
/// same identity.
pub fn thunk_identity(name: &[u8], path: &[u8], line: u64) -> (r: Vec<u8>)
    ensures
        r@ == identity_spec(name@, path@, line),
{
    let mut enc: Vec<u8> = Vec::new();
    push_dec(&mut enc, name.len() as u64);
    enc.push(58);
    push_bytes(&mut enc, name);
    push_dec(&mut enc, path.len() as u64);
    enc.push(58);
    push_bytes(&mut enc, path);
    push_dec(&mut enc, line);
    proof {
        assert(enc@ =~= encode_location(name@, path@, line));
    }
    let digest = sha256(enc.as_slice());
    let mut out: Vec<u8> = Vec::new();
    out.push(95);
    out.push(95);
    out.push(98);
    out.push(117);
    out.push(116);
    out.push(108);
    out.push(101);
    out.push(114);
    out.push(95);
    proof {
        assert(out@ =~= identity_prefix());
    }
    push_hex(&mut out, digest.as_slice());
    out
}

/// A decimal rendering is never empty, and has at least two digits from 10
/// on.
proof fn lemma_dec_digits_len(n: nat)
    ensures
        dec_digits(n).len() >= 1,
        n >= 10 ==> dec_digits(n).len() >= 2,
    decreases n,
{
    if n >= 10 {
        lemma_dec_digits_len(n / 10);
    }
}

/// Two numbers with the same decimal rendering are the same number.
pub proof fn lemma_dec_digits_injective(a: nat, b: nat)
    requires
        dec_digits(a) == dec_digits(b),
    ensures
        a == b,
    decreases a,
{
    lemma_dec_digits_len(a);
    lemma_dec_digits_len(b);
    if a < 10 && b < 10 {
        assert(dec_digits(a)[0] == (48 + a) as u8);
        assert(dec_digits(b)[0] == (48 + b) as u8);
        assert(((48 + a) as u8) as nat == 48 + a);
        assert(((48 + b) as u8) as nat == 48 + b);
    } else if a >= 10 && b >= 10 {
        assert(dec_digits(a).last() == (48 + a % 10) as u8);
        assert(dec_digits(b).last() == (48 + b % 10) as u8);
        assert(((48 + a % 10) as u8) as nat == 48 + a % 10);
        assert(((48 + b % 10) as u8) as nat == 48 + b % 10);
        assert(a % 10 == b % 10);
        assert(dec_digits(a).drop_last() =~= dec_digits(a / 10));
        assert(dec_digits(b).drop_last() =~= dec_digits(b / 10));
        lemma_dec_digits_injective(a / 10, b / 10);
        assert(a == 10 * (a / 10) + a % 10);
        assert(b == 10 * (b / 10) + b % 10);
    } else if a < 10 {
        assert(dec_digits(a).len() == 1);
        assert(false);
    } else {
        assert(dec_digits(b).len() == 1);
        assert(false);
    }
}

/// Distinct values below 16 render as distinct hexadecimal digits.
proof fn lemma_hex_digit_injective(x: u8, y: u8)
    requires
        x < 16,
        y < 16,
        hex_digit(x) == hex_digit(y),
    ensures
        x == y,
{
    if x < 10 {
        assert(((48 + x) as u8) as int == 48 + x);
    } else {
        assert(((87 + x) as u8) as int == 87 + x);
    }
    if y < 10 {
        assert(((48 + y) as u8) as int == 48 + y);
    } else {
        assert(((87 + y) as u8) as int == 87 + y);
    }
}

/// A hexadecimal rendering is twice as long as its input.
proof fn lemma_hex_of_len(s: Seq<u8>)
    ensures
        hex_of(s).len() == 2 * s.len(),
    decreases s.len(),
{
    if s.len() > 0 {
        lemma_hex_of_len(s.drop_last());
    }
}

/// Two byte strings with the same hexadecimal rendering are the same.
pub proof fn lemma_hex_of_injective(a: Seq<u8>, b: Seq<u8>)
    requires
        hex_of(a) == hex_of(b),
    ensures
        a == b,
    decreases a.len(),
{
    lemma_hex_of_len(a);
    lemma_hex_of_len(b);
    if a.len() == 0 {
        assert(a =~= b);
    } else {
        let ha = hex_of(a);
        let hb = hex_of(b);
        assert(ha[ha.len() - 2] == hex_digit(a.last() / 16));
        assert(ha[ha.len() - 1] == hex_digit(a.last() % 16));
        assert(hb[hb.len() - 2] == hex_digit(b.last() / 16));
        assert(hb[hb.len() - 1] == hex_digit(b.last() % 16));
        lemma_hex_digit_injective(a.last() / 16, b.last() / 16);
        lemma_hex_digit_injective(a.last() % 16, b.last() % 16);
        assert(a.last() == 16 * (a.last() / 16) + a.last() % 16);
        assert(b.last() == 16 * (b.last() / 16) + b.last() % 16);
        assert(hex_of(a.drop_last()) =~= hex_of(b.drop_last())) by {
            assert(forall|k: int|
                0 <= k < hex_of(a.drop_last()).len() ==> #[trigger] hex_of(a.drop_last())[k] == ha[k]
                    == hex_of(b.drop_last())[k]);
        }
        lemma_hex_of_injective(a.drop_last(), b.drop_last());
        assert(forall|k: int| 0 <= k < a.len() - 1 ==> #[trigger] a[k] == a.drop_last()[k]);
        assert(forall|k: int| 0 <= k < b.len() - 1 ==> #[trigger] b[k] == b.drop_last()[k]);
        assert(a.last() == b.last());
        assert(a =~= b);
    }
}

/// Declarations at two different lines of one file feed the digest two
/// different inputs: an identity collision between them would be a SHA-256
/// collision.
pub proof fn lemma_encode_line_distinct(name: Seq<u8>, path: Seq<u8>, l1: u64, l2: u64)
    requires
        l1 != l2,
    ensures
        encode_location(name, path, l1) != encode_location(name, path, l2),
{
    if encode_location(name, path, l1) == encode_location(name, path, l2) {
        let c = dec_digits(name.len()) + seq![58u8] + name + dec_digits(path.len()) + seq![58u8]
            + path;
        let e1 = encode_location(name, path, l1);
        let e2 = encode_location(name, path, l2);
        assert(e1.len() == c.len() + dec_digits(l1 as nat).len());
        assert(e2.len() == c.len() + dec_digits(l2 as nat).len());
        assert(dec_digits(l1 as nat) =~= dec_digits(l2 as nat)) by {
            assert(forall|k: int|
                0 <= k < dec_digits(l1 as nat).len() ==> #[trigger] dec_digits(l1 as nat)[k] == e1[c.len()
                    + k] == dec_digits(l2 as nat)[k]);
        }
        lemma_dec_digits_injective(l1 as nat, l2 as nat);
        assert(false);
    }
}

/// Identities agree only where the digests agree: the fixed prefix and the
/// hexadecimal rendering add no collisions of their own.
pub proof fn lemma_identity_collision_needs_digest_collision(
    n1: Seq<u8>,
    p1: Seq<u8>,
    l1: u64,
    n2: Seq<u8>,
    p2: Seq<u8>,
    l2: u64,
)
    requires
        identity_spec(n1, p1, l1) == identity_spec(n2, p2, l2),
    ensures
        sha256_of(encode_location(n1, p1, l1)) == sha256_of(encode_location(n2, p2, l2)),
{
    let d1 = sha256_of(encode_location(n1, p1, l1));
    let d2 = sha256_of(encode_location(n2, p2, l2));
    let i1 = identity_spec(n1, p1, l1);
    let i2 = identity_spec(n2, p2, l2);
    assert(hex_of(d1) =~= hex_of(d2)) by {
        assert(i1.len() == identity_prefix().len() + hex_of(d1).len());
        assert(i2.len() == identity_prefix().len() + hex_of(d2).len());
        assert(forall|k: int|
            0 <= k < hex_of(d1).len() ==> #[trigger] hex_of(d1)[k] == i1[identity_prefix().len() + k]
                == hex_of(d2)[k]);
    }
    lemma_hex_of_injective(d1, d2);
}

} // verus!
