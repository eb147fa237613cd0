//! Salted one-way password digests.
//!
//! The storage engine keeps a password column that never holds plaintext:
//! each stored value is `<salt as 16 hex digits> '$' <digest as 16 hex
//! digits>`, where the digest is a 64-bit FNV-1a fold of the salt prefix
//! followed by the plaintext.  Because the salt participates in the
//! digest, verification needs no numeric parsing: it refolds the stored
//! prefix with the candidate plaintext and compares the digest part.
//!
//! The fold is checksum-strength, which is what the proofs here need
//! (determinism, salt sensitivity); where real credentials are at
//! stake, a key-derivation function belongs behind the same contracts.

use vstd::prelude::*;
use vstd::string::StrSliceExecFns;

verus! {

/// FNV-1a 64-bit offset basis.
pub const FNV_OFFSET: u64 = 0xcbf29ce484222325;

/// FNV-1a 64-bit prime.
pub const FNV_PRIME: u64 = 0x00000100000001b3;

/// The lowercase hex digit for a nibble value.
pub open spec fn hex_digit(n: u64) -> char {
    if n == 0 {
        '0'
    } else if n == 1 {
        '1'
    } else if n == 2 {
        '2'
    } else if n == 3 {
        '3'
    } else if n == 4 {
        '4'
    } else if n == 5 {
        '5'
    } else if n == 6 {
        '6'
    } else if n == 7 {
        '7'
    } else if n == 8 {
        '8'
    } else if n == 9 {
        '9'
    } else if n == 10 {
        'a'
    } else if n == 11 {
        'b'
    } else if n == 12 {
        'c'
    } else if n == 13 {
        'd'
    } else if n == 14 {
        'e'
    } else {
        'f'
    }
}

/// The `i`-th nibble of `x`, counting from the most significant.
pub open spec fn nibble(x: u64, i: int) -> u64 {
    (x >> ((60 - 4 * i) as u64)) & 0xf
}

/// `x` written as 16 lowercase hex digits, most significant first.
pub open spec fn hex16(x: u64) -> Seq<char> {
    Seq::new(16, |i: int| hex_digit(nibble(x, i)))
}

/// One FNV-1a step: xor the character in, then multiply by the prime
/// with wraparound.
pub open spec fn fnv_step(h: u64, c: char) -> u64 {
    vstd::wrapping::u64_specs::wrapping_mul(h ^ ((c as u32) as u64), FNV_PRIME)
}

/// FNV-1a fold of `s` starting from state `h`.
pub open spec fn fnv_from(h: u64, s: Seq<char>) -> u64
    decreases s.len(),
{
    if s.len() == 0 {
        h
    } else {
        fnv_step(fnv_from(h, s.drop_last()), s.last())
    }
}

/// The salt prefix of a stored value: 16 hex digits and a separator.
pub open spec fn salt_prefix(salt: u64) -> Seq<char> {
    hex16(salt).push('$')
}

/// The stored form of `plain` hashed under `salt`.
pub open spec fn spec_hash(plain: Seq<char>, salt: u64) -> Seq<char> {
    salt_prefix(salt) + hex16(fnv_from(FNV_OFFSET, salt_prefix(salt) + plain))
}

/// Whether `plain` verifies against the stored value `stored`: the
/// digest part of `stored` must be the fold of its own salt prefix
/// followed by `plain`.
pub open spec fn spec_verify(plain: Seq<char>, stored: Seq<char>) -> bool {
    &&& stored.len() == 33
    &&& stored.subrange(17, 33) == hex16(fnv_from(FNV_OFFSET, stored.take(17) + plain))
}

/// Relies on `String::push`: appends the given character to the end of
/// the string.
#[verifier::external_body]
fn push_char(s: &mut String, c: char)
    ensures
        final(s)@ == old(s)@.push(c),
{
    s.push(c);
}

/// The executable counterpart of [`hex_digit`].
fn hex_digit_exec(n: u64) -> (c: char)
    requires
        n < 16,
    ensures
        c == hex_digit(n),
{
    if n == 0 {
        '0'
    } else if n == 1 {
        '1'
    } else if n == 2 {
        '2'
    } else if n == 3 {
        '3'
    } else if n == 4 {
        '4'
    } else if n == 5 {
        '5'
    } else if n == 6 {
        '6'
    } else if n == 7 {
        '7'
    } else if n == 8 {
        '8'
    } else if n == 9 {
        '9'
    } else if n == 10 {
        'a'
    } else if n == 11 {
        'b'
    } else if n == 12 {
        'c'
    } else if n == 13 {
        'd'
    } else if n == 14 {
        'e'
    } else {
        'f'
    }
}

/// Appends the 16 hex digits of `x` to `s`.
fn append_hex16(s: &mut String, x: u64)
    ensures
        final(s)@ == old(s)@ + hex16(x),
{
    let mut i: usize = 0;
    while i < 16
        invariant
            i <= 16,
            s@ == old(s)@ + hex16(x).take(i as int),
        decreases 16 - i,
    {
        let shift: u64 = (60 - 4 * i) as u64;
        let nib: u64 = (x >> shift) & 0xf;
        proof {
            assert(nib < 16) by (bit_vector)
                requires
                    nib == (x >> shift) & 0xf,
            ;
            assert(nib == nibble(x, i as int));
        }
        let c = hex_digit_exec(nib);
        push_char(s, c);
        proof {
            assert(s@ =~= old(s)@ + hex16(x).take(i as int + 1));
        }
        i += 1;
    }
    proof {
        assert(s@ =~= old(s)@ + hex16(x));
    }
}

/// FNV-1a fold of the characters of `s`, starting from state `h0`.
fn fnv_str(h0: u64, s: &str) -> (r: u64)
    ensures
        r == fnv_from(h0, s@),
{
    let n = s.unicode_len();
    let mut h = h0;
    let mut i: usize = 0;
    while i < n
        invariant
            n == s@.len(),
            i <= n,
            h == fnv_from(h0, s@.take(i as int)),
        decreases n - i,
    {
        let c = s.get_char(i);
        proof {
            assert(s@.take(i as int + 1).drop_last() =~= s@.take(i as int));
            assert(s@.take(i as int + 1).last() == s@[i as int]);
        }
        h = (h ^ ((c as u32) as u64)).wrapping_mul(FNV_PRIME);
        i += 1;
    }
    proof {
        assert(s@.take(n as int) =~= s@);
    }
    h
}

/// Folding a concatenation is folding the parts in order.
pub proof fn lemma_fnv_concat(h: u64, a: Seq<char>, b: Seq<char>)
    ensures
        fnv_from(h, a + b) == fnv_from(fnv_from(h, a), b),
    decreases b.len(),
{
    if b.len() == 0 {
        assert(a + b =~= a);
    } else {
        lemma_fnv_concat(h, a, b.drop_last());
        assert((a + b).drop_last() =~= a + b.drop_last());
    }
}

/// Hashes `plain` under `salt` into the stored form: the hex salt, a
/// separator, and the hex digest of the prefix followed by the
/// plaintext.
pub fn hash_password(plain: &str, salt: u64) -> (r: String)
    ensures
        r@ == spec_hash(plain@, salt),
{
    let mut s = String::new();
    append_hex16(&mut s, salt);
    push_char(&mut s, '$');
    proof {
        assert(s@ =~= salt_prefix(salt));
    }
    let h = fnv_str(FNV_OFFSET, s.as_str());
    let digest = fnv_str(h, plain);
    proof {
        lemma_fnv_concat(FNV_OFFSET, salt_prefix(salt), plain@);
    }
    append_hex16(&mut s, digest);
    proof {
        assert(s@ =~= spec_hash(plain@, salt));
    }
    s
}

/// Checks `plain` against a stored value by refolding the stored salt
/// prefix with the candidate plaintext and comparing the digest part.
pub fn verify_password(plain: &str, stored: &str) -> (r: bool)
    ensures
        r == spec_verify(plain@, stored@),
{
    let n = stored.unicode_len();
    if n != 33 {
        return false;
    }
    let prefix = stored.substring_char(0, 17);
    let h = fnv_str(FNV_OFFSET, prefix);
    let digest = fnv_str(h, plain);
    proof {
        assert(stored@.subrange(0, 17) =~= stored@.take(17));
        lemma_fnv_concat(FNV_OFFSET, stored@.take(17), plain@);
    }
    let mut j: usize = 0;
    while j < 16
        invariant
            j <= 16,
            stored@.len() == 33,
            digest == fnv_from(FNV_OFFSET, stored@.take(17) + plain@),
            forall|k: int| 0 <= k < j ==> stored@[17 + k] == hex16(digest)[k],
        decreases 16 - j,
    {
        let shift: u64 = (60 - 4 * j) as u64;
        let nib: u64 = (digest >> shift) & 0xf;
        proof {
            assert(nib < 16) by (bit_vector)
                requires
                    nib == (digest >> shift) & 0xf,
            ;
            assert(nib == nibble(digest, j as int));
        }
        let expect = hex_digit_exec(nib);
        let got = stored.get_char(17 + j);
        if got != expect {
            proof {
                if stored@.subrange(17, 33) == hex16(digest) {
                    assert(stored@.subrange(17, 33)[j as int] == hex16(digest)[j as int]);
                    assert(false);
                }
            }
            return false;
        }
        j += 1;
    }
    proof {
        assert(stored@.subrange(17, 33) =~= hex16(digest));
    }
    true
}

/// A value hashed under any salt verifies against its own stored form.
pub proof fn lemma_verify_hash(plain: Seq<char>, salt: u64)
    ensures
        spec_verify(plain, spec_hash(plain, salt)),
{
    let stored = spec_hash(plain, salt);
    assert(stored.take(17) =~= salt_prefix(salt));
    assert(stored.subrange(17, 33) =~= hex16(fnv_from(FNV_OFFSET, salt_prefix(salt) + plain)));
}

/// Below 16, distinct nibble values get distinct hex digits.
pub proof fn lemma_hex_digit_injective(x: u64, y: u64)
    requires
        x < 16,
        y < 16,
        hex_digit(x) == hex_digit(y),
    ensures
        x == y,
{
}

/// Distinct salts have distinct 16-digit hex spellings.
pub proof fn lemma_hex16_injective(a: u64, b: u64)
    requires
        hex16(a) == hex16(b),
    ensures
        a == b,
{
    assert forall|i: int| 0 <= i < 16 implies nibble(a, i) == nibble(b, i) by {
        assert(hex16(a)[i] == hex16(b)[i]);
        let sh = (60 - 4 * i) as u64;
        let na = nibble(a, i);
        let nb = nibble(b, i);
        assert(na < 16 && nb < 16) by (bit_vector)
            requires
                na == (a >> sh) & 0xf,
                nb == (b >> sh) & 0xf,
        ;
        assert(hex16(a)[i] == hex_digit(nibble(a, i)));
        assert(hex16(b)[i] == hex_digit(nibble(b, i)));
        assert(hex_digit(na) == hex_digit(nb));
        lemma_hex_digit_injective(na, nb);
    }
    assert((a >> 60) & 0xf == (b >> 60) & 0xf) by { assert(nibble(a, 0) == nibble(b, 0)); }
    assert((a >> 56) & 0xf == (b >> 56) & 0xf) by { assert(nibble(a, 1) == nibble(b, 1)); }
    assert((a >> 52) & 0xf == (b >> 52) & 0xf) by { assert(nibble(a, 2) == nibble(b, 2)); }
    assert((a >> 48) & 0xf == (b >> 48) & 0xf) by { assert(nibble(a, 3) == nibble(b, 3)); }
    assert((a >> 44) & 0xf == (b >> 44) & 0xf) by { assert(nibble(a, 4) == nibble(b, 4)); }
    assert((a >> 40) & 0xf == (b >> 40) & 0xf) by { assert(nibble(a, 5) == nibble(b, 5)); }
    assert((a >> 36) & 0xf == (b >> 36) & 0xf) by { assert(nibble(a, 6) == nibble(b, 6)); }
    assert((a >> 32) & 0xf == (b >> 32) & 0xf) by { assert(nibble(a, 7) == nibble(b, 7)); }
    assert((a >> 28) & 0xf == (b >> 28) & 0xf) by { assert(nibble(a, 8) == nibble(b, 8)); }
    assert((a >> 24) & 0xf == (b >> 24) & 0xf) by { assert(nibble(a, 9) == nibble(b, 9)); }
    assert((a >> 20) & 0xf == (b >> 20) & 0xf) by { assert(nibble(a, 10) == nibble(b, 10)); }
    assert((a >> 16) & 0xf == (b >> 16) & 0xf) by { assert(nibble(a, 11) == nibble(b, 11)); }
    assert((a >> 12) & 0xf == (b >> 12) & 0xf) by { assert(nibble(a, 12) == nibble(b, 12)); }
    assert((a >> 8) & 0xf == (b >> 8) & 0xf) by { assert(nibble(a, 13) == nibble(b, 13)); }
    assert((a >> 4) & 0xf == (b >> 4) & 0xf) by { assert(nibble(a, 14) == nibble(b, 14)); }
    assert((a >> 0) & 0xf == (b >> 0) & 0xf) by { assert(nibble(a, 15) == nibble(b, 15)); }
    assert(a == b) by (bit_vector)
        requires
            (a >> 60) & 0xf == (b >> 60) & 0xf,
            (a >> 56) & 0xf == (b >> 56) & 0xf,
            (a >> 52) & 0xf == (b >> 52) & 0xf,
            (a >> 48) & 0xf == (b >> 48) & 0xf,
            (a >> 44) & 0xf == (b >> 44) & 0xf,
            (a >> 40) & 0xf == (b >> 40) & 0xf,
            (a >> 36) & 0xf == (b >> 36) & 0xf,
            (a >> 32) & 0xf == (b >> 32) & 0xf,
            (a >> 28) & 0xf == (b >> 28) & 0xf,
            (a >> 24) & 0xf == (b >> 24) & 0xf,
            (a >> 20) & 0xf == (b >> 20) & 0xf,
            (a >> 16) & 0xf == (b >> 16) & 0xf,
            (a >> 12) & 0xf == (b >> 12) & 0xf,
            (a >> 8) & 0xf == (b >> 8) & 0xf,
            (a >> 4) & 0xf == (b >> 4) & 0xf,
            (a >> 0) & 0xf == (b >> 0) & 0xf,
    ;
}

/// Hashing the same plaintext under two distinct salts yields two
/// distinct stored values: the salt spelled into the prefix keeps the
/// stored forms apart even when the plaintexts agree.
pub proof fn lemma_hash_salt_distinct(plain: Seq<char>, s1: u64, s2: u64)
    requires
        s1 != s2,
    ensures
        spec_hash(plain, s1) != spec_hash(plain, s2),
{
    if spec_hash(plain, s1) == spec_hash(plain, s2) {
        assert forall|i: int| 0 <= i < 16 implies hex16(s1)[i] == hex16(s2)[i] by {
            assert(spec_hash(plain, s1)[i] == spec_hash(plain, s2)[i]);
        }
        assert(hex16(s1) =~= hex16(s2));
        lemma_hex16_injective(s1, s2);
    }
}

} // verus!
