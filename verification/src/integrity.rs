//! The integrity digest of a payload: its Adler-32 checksum as four bytes, big-endian.
use vstd::prelude::*;

verus! {

/// The modulus of Adler-32: the largest prime below 2^16.
pub const ADLER_BASE: u32 = 65521;

/// The low half of Adler-32: one plus the sum of the bytes, modulo 65521.
pub open spec fn adler_low(bytes: Seq<u8>) -> int
    decreases bytes.len(),
{
    if bytes.len() == 0 {
        1
    } else {
        (adler_low(bytes.drop_last()) + bytes.last()) % (ADLER_BASE as int)
    }
}

/// The high half of Adler-32: the sum of the low halves of all nonempty prefixes, modulo 65521.
pub open spec fn adler_high(bytes: Seq<u8>) -> int
    decreases bytes.len(),
{
    if bytes.len() == 0 {
        0
    } else {
        (adler_high(bytes.drop_last()) + adler_low(bytes)) % (ADLER_BASE as int)
    }
}

/// The Adler-32 checksum of a sequence of bytes.
pub open spec fn adler32_checksum(bytes: Seq<u8>) -> u32 {
    (adler_high(bytes) * 65536 + adler_low(bytes)) as u32
}

/// The four bytes of a 32-bit number, most significant first.
pub open spec fn big_endian(n: u32) -> Seq<u8> {
    seq![
        (n / 0x100_0000) as u8,
        ((n / 0x1_0000) % 0x100) as u8,
        ((n / 0x100) % 0x100) as u8,
        (n % 0x100) as u8,
    ]
}

/// The digest that belongs to a payload text: the Adler-32 checksum of its UTF-8 bytes,
/// big-endian.
pub open spec fn digest_of(text: Seq<char>) -> Seq<u8> {
    big_endian(adler32_checksum(vstd::utf8::encode_utf8(text)))
}

/// `adler32::RollingAdler32::from_buffer` followed by `hash`: the Adler-32 checksum of the
/// buffer, as the crate documents it and zlib defines it.
#[verifier::external_body]
fn adler32_of(bytes: &[u8]) -> (r: u32)
    ensures
        r == adler32_checksum(bytes@),
{
    adler32::RollingAdler32::from_buffer(bytes).hash()
}

/// The digest that belongs to a payload text.
pub fn seal(text: &str) -> (r: Vec<u8>)
    ensures
        r@ == digest_of(text@),
{
    let hash = adler32_of(text.as_bytes());
    let mut out: Vec<u8> = Vec::new();
    out.push((hash / 0x100_0000) as u8);
    out.push(((hash / 0x1_0000) % 0x100) as u8);
    out.push(((hash / 0x100) % 0x100) as u8);
    out.push((hash % 0x100) as u8);
    assert(out@ =~= digest_of(text@));
    out
}

/// Whether the digest is the one that belongs to the payload text.
pub fn matches_digest(text: &str, digest: &Vec<u8>) -> (r: bool)
    ensures
        r == (digest@ == digest_of(text@)),
{
    let expected = seal(text);
    if digest.len() != 4 {
        return false;
    }
    let same = digest[0] == expected[0] && digest[1] == expected[1] && digest[2] == expected[2]
        && digest[3] == expected[3];
    proof {
        if same {
            assert(digest@ =~= expected@);
        }
    }
    same
}

/// The sum of the bytes.
pub open spec fn byte_sum(bytes: Seq<u8>) -> int
    decreases bytes.len(),
{
    if bytes.len() == 0 {
        0
    } else {
        byte_sum(bytes.drop_last()) + bytes.last()
    }
}

/// The low half is one plus the sum of the bytes, modulo 65521; both halves are below 65521.
proof fn lemma_halves(bytes: Seq<u8>)
    ensures
        adler_low(bytes) == (1 + byte_sum(bytes)) % (ADLER_BASE as int),
        0 <= adler_low(bytes) < ADLER_BASE,
        0 <= adler_high(bytes) < ADLER_BASE,
    decreases bytes.len(),
{
    if bytes.len() > 0 {
        lemma_halves(bytes.drop_last());
        let before = 1 + byte_sum(bytes.drop_last());
        let last = bytes.last() as int;
        assert((before % 65521 + last) % 65521 == (before + last) % 65521) by {
            vstd::arithmetic::div_mod::lemma_add_mod_noop(before, last, 65521);
            vstd::arithmetic::div_mod::lemma_small_mod(last as nat, 65521);
        }
    }
}

/// Replacing one byte changes the sum by the difference of the two bytes.
proof fn lemma_sum_update(bytes: Seq<u8>, i: int, byte: u8)
    requires
        0 <= i < bytes.len(),
    ensures
        byte_sum(bytes.update(i, byte)) == byte_sum(bytes) - bytes[i] + byte,
    decreases bytes.len(),
{
    let changed = bytes.update(i, byte);
    if i == bytes.len() - 1 {
        assert(changed.drop_last() =~= bytes.drop_last());
    } else {
        lemma_sum_update(bytes.drop_last(), i, byte);
        assert(changed.drop_last() =~= bytes.drop_last().update(i, byte));
    }
}

/// Adding a number between -255 and 255 other than 0 changes the remainder modulo 65521.
proof fn lemma_remainder_changes(x: int, delta: int)
    requires
        -255 <= delta <= 255,
        delta != 0,
    ensures
        x % 65521 != (x + delta) % 65521,
{
    let q = x / 65521;
    let r = x % 65521;
    let q2 = (x + delta) / 65521;
    let r2 = (x + delta) % 65521;
    assert(x == 65521 * q + r && 0 <= r < 65521) by {
        vstd::arithmetic::div_mod::lemma_fundamental_div_mod(x, 65521);
    }
    assert(x + delta == 65521 * q2 + r2 && 0 <= r2 < 65521) by {
        vstd::arithmetic::div_mod::lemma_fundamental_div_mod(x + delta, 65521);
    }
    if r == r2 {
        assert(delta == 65521 * (q2 - q));
        if q2 > q {
            assert(delta >= 65521);
        } else if q2 < q {
            assert(delta <= -65521);
        }
    }
}

/// A 32-bit number is what its four bytes spell.
proof fn lemma_big_endian_value(n: u32)
    ensures
        n == big_endian(n)[0] * 0x100_0000 + big_endian(n)[1] * 0x1_0000 + big_endian(n)[2] * 0x100
            + big_endian(n)[3],
{
}

/// A change of one byte is always seen: the checksum of a sequence of bytes differs from that
/// of the sequence with one byte replaced by another, and so do their four bytes.
pub proof fn lemma_one_byte_changes_checksum(bytes: Seq<u8>, i: int, byte: u8)
    requires
        0 <= i < bytes.len(),
        byte != bytes[i],
    ensures
        adler32_checksum(bytes.update(i, byte)) != adler32_checksum(bytes),
        big_endian(adler32_checksum(bytes.update(i, byte))) != big_endian(adler32_checksum(bytes)),
{
    let changed = bytes.update(i, byte);
    lemma_halves(bytes);
    lemma_halves(changed);
    lemma_sum_update(bytes, i, byte);
    lemma_remainder_changes(1 + byte_sum(bytes), byte as int - bytes[i] as int);
    assert(adler_low(changed) != adler_low(bytes));
    let a = adler32_checksum(changed);
    let b = adler32_checksum(bytes);
    lemma_checksum_halves(changed);
    lemma_checksum_halves(bytes);
    assert(a != b);
    lemma_big_endian_value(a);
    lemma_big_endian_value(b);
}

/// The low half of the checksum is its remainder modulo 2^16.
proof fn lemma_checksum_halves(bytes: Seq<u8>)
    ensures
        adler32_checksum(bytes) % 0x1_0000 == adler_low(bytes),
{
    lemma_halves(bytes);
    let high = adler_high(bytes);
    let low = adler_low(bytes);
    assert(0 <= high * 65536 + low < 0x1_0000_0000);
    assert((high * 65536 + low) % 0x1_0000 == low);
}

} // verus!
