//! The borsh wire format of the fixed-size records used by the programs:
//! little-endian `u64` integers and raw byte arrays (keys, discriminants),
//! laid one after the other with no framing.
use vstd::prelude::*;

verus! {

/// The eight little-endian bytes of `x`.
pub open spec fn spec_u64_le(x: u64) -> Seq<u8> {
    seq![
        x as u8,
        (x >> 8u64) as u8,
        (x >> 16u64) as u8,
        (x >> 24u64) as u8,
        (x >> 32u64) as u8,
        (x >> 40u64) as u8,
        (x >> 48u64) as u8,
        (x >> 56u64) as u8,
    ]
}

/// The `u64` whose little-endian bytes are the first eight of `s`.
pub open spec fn spec_u64_from_le(s: Seq<u8>) -> u64 {
    (s[0] as u64) | ((s[1] as u64) << 8u64) | ((s[2] as u64) << 16u64) | ((s[3] as u64)
        << 24u64) | ((s[4] as u64) << 32u64) | ((s[5] as u64) << 40u64) | ((s[6] as u64)
        << 48u64) | ((s[7] as u64) << 56u64)
}

/// What reading a record of exactly `n` bytes from an input of `len` bytes
/// reports: too short an input runs out, too long an input leaves bytes over.
pub open spec fn spec_fixed_length_check(len: nat, n: nat) -> Result<(), crate::error::BorshError> {
    if len < n {
        Err(crate::error::BorshError::UnexpectedLengthOfInput)
    } else if len > n {
        Err(crate::error::BorshError::NotAllBytesRead)
    } else {
        Ok(())
    }
}

/// Reading back the bytes of a `u64` gives the `u64`.
pub proof fn lemma_u64_le_roundtrip(x: u64)
    ensures
        spec_u64_le(x).len() == 8,
        spec_u64_from_le(spec_u64_le(x)) == x,
{
    let s = spec_u64_le(x);
    assert(s[0] == x as u8);
    assert(s[7] == (x >> 56u64) as u8);
    assert(((x as u8) as u64) | ((((x >> 8u64) as u8) as u64) << 8u64) | ((((x >> 16u64) as u8)
        as u64) << 16u64) | ((((x >> 24u64) as u8) as u64) << 24u64) | ((((x >> 32u64) as u8)
        as u64) << 32u64) | ((((x >> 40u64) as u8) as u64) << 40u64) | ((((x >> 48u64) as u8)
        as u64) << 48u64) | ((((x >> 56u64) as u8) as u64) << 56u64) == x) by (bit_vector);
}

/// The bytes of a `u64` are its base-256 digits, least significant first:
/// byte `j` is `x / 256^j` modulo 256.
pub proof fn lemma_u64_le_digits(x: u64)
    ensures
        spec_u64_le(x).len() == 8,
        spec_u64_le(x)[0] as int == (x as int / 1) % 256,
        spec_u64_le(x)[1] as int == (x as int / 256) % 256,
        spec_u64_le(x)[2] as int == (x as int / 65536) % 256,
        spec_u64_le(x)[3] as int == (x as int / 16777216) % 256,
        spec_u64_le(x)[4] as int == (x as int / 4294967296) % 256,
        spec_u64_le(x)[5] as int == (x as int / 1099511627776) % 256,
        spec_u64_le(x)[6] as int == (x as int / 281474976710656) % 256,
        spec_u64_le(x)[7] as int == (x as int / 72057594037927936) % 256,
{
    assert((x >> 0u64) as u8 == ((x / 1u64) % 256u64) as u8) by (bit_vector);
    lemma_digit(x, 1u64, (x >> 0u64) as u8);
    assert((x >> 8u64) as u8 == ((x / 256u64) % 256u64) as u8) by (bit_vector);
    lemma_digit(x, 256u64, (x >> 8u64) as u8);
    assert((x >> 16u64) as u8 == ((x / 65536u64) % 256u64) as u8) by (bit_vector);
    lemma_digit(x, 65536u64, (x >> 16u64) as u8);
    assert((x >> 24u64) as u8 == ((x / 16777216u64) % 256u64) as u8) by (bit_vector);
    lemma_digit(x, 16777216u64, (x >> 24u64) as u8);
    assert((x >> 32u64) as u8 == ((x / 4294967296u64) % 256u64) as u8) by (bit_vector);
    lemma_digit(x, 4294967296u64, (x >> 32u64) as u8);
    assert((x >> 40u64) as u8 == ((x / 1099511627776u64) % 256u64) as u8) by (bit_vector);
    lemma_digit(x, 1099511627776u64, (x >> 40u64) as u8);
    assert((x >> 48u64) as u8 == ((x / 281474976710656u64) % 256u64) as u8) by (bit_vector);
    lemma_digit(x, 281474976710656u64, (x >> 48u64) as u8);
    assert((x >> 56u64) as u8 == ((x / 72057594037927936u64) % 256u64) as u8) by (bit_vector);
    lemma_digit(x, 72057594037927936u64, (x >> 56u64) as u8);
    assert((x >> 0u64) as u8 == x as u8) by (bit_vector);
}

proof fn lemma_digit(x: u64, d: u64, digit: u8)
    requires
        d > 0,
        digit == ((x / d) % 256u64) as u8,
    ensures
        digit as int == (x as int / d as int) % 256,
{
    assert(((x / d) % 256u64) < 256);
}

/// Eight bytes read as a `u64` give the number whose base-256 digits,
/// least significant first, they are.
pub proof fn lemma_u64_from_le_value(s: Seq<u8>)
    requires
        s.len() >= 8,
    ensures
        spec_u64_from_le(s) as int == (s[0] as int) * 1 + (s[1] as int) * 256 + (s[2] as int) * 65536 + (s[3] as int) * 16777216 + (s[4] as int) * 4294967296 + (s[5] as int) * 1099511627776 + (s[6] as int) * 281474976710656 + (s[7] as int) * 72057594037927936,
{
    let b0 = s[0];
    let b1 = s[1];
    let b2 = s[2];
    let b3 = s[3];
    let b4 = s[4];
    let b5 = s[5];
    let b6 = s[6];
    let b7 = s[7];
    assert((b0 as u64) | ((b1 as u64) << 8u64) | ((b2 as u64) << 16u64) | ((b3 as u64) << 24u64) | ((
    b4 as u64) << 32u64) | ((b5 as u64) << 40u64) | ((b6 as u64) << 48u64) | ((b7 as u64) << 56u64)
        == (b0 as u64) + (b1 as u64) * 256u64 + (b2 as u64) * 65536u64 + (b3 as u64) * 16777216u64 + (b4 as u64)
        * 4294967296u64 + (b5 as u64) * 1099511627776u64 + (b6 as u64) * 281474976710656u64 + (b7 as u64)
        * 72057594037927936u64) by (bit_vector);
}

/// Writing out a `u64` read from eight bytes gives the same eight bytes.
pub proof fn lemma_u64_le_inverse(s: Seq<u8>)
    requires
        s.len() == 8,
    ensures
        spec_u64_le(spec_u64_from_le(s)) == s,
{
    let b0 = s[0];
    let b1 = s[1];
    let b2 = s[2];
    let b3 = s[3];
    let b4 = s[4];
    let b5 = s[5];
    let b6 = s[6];
    let b7 = s[7];
    let x = spec_u64_from_le(s);
    assert(x == (b0 as u64) | ((b1 as u64) << 8u64) | ((b2 as u64) << 16u64) | ((b3 as u64)
        << 24u64) | ((b4 as u64) << 32u64) | ((b5 as u64) << 40u64) | ((b6 as u64) << 48u64) | ((
    b7 as u64) << 56u64));
    assert(x as u8 == b0 && (x >> 8u64) as u8 == b1 && (x >> 16u64) as u8 == b2 && (x >> 24u64)
        as u8 == b3 && (x >> 32u64) as u8 == b4 && (x >> 40u64) as u8 == b5 && (x >> 48u64) as u8
        == b6 && (x >> 56u64) as u8 == b7) by (bit_vector)
        requires
            x == (b0 as u64) | ((b1 as u64) << 8u64) | ((b2 as u64) << 16u64) | ((b3 as u64)
                << 24u64) | ((b4 as u64) << 32u64) | ((b5 as u64) << 40u64) | ((b6 as u64)
                << 48u64) | ((b7 as u64) << 56u64),
    ;
    assert(spec_u64_le(x) =~= s);
}

/// The deep view of a byte vector is its view.
pub broadcast proof fn lemma_bytes_deep_view(v: Vec<u8>)
    ensures
        #[trigger] v.deep_view() == v@,
{
    assert(v.deep_view() =~= v@);
}

/// Appends the little-endian bytes of `x`.
pub fn write_u64_le(out: &mut Vec<u8>, x: u64)
    ensures
        final(out)@ == old(out)@ + spec_u64_le(x),
{
    out.push(x as u8);
    out.push((x >> 8u64) as u8);
    out.push((x >> 16u64) as u8);
    out.push((x >> 24u64) as u8);
    out.push((x >> 32u64) as u8);
    out.push((x >> 40u64) as u8);
    out.push((x >> 48u64) as u8);
    out.push((x >> 56u64) as u8);
    assert(out@ =~= old(out)@ + spec_u64_le(x));
}

/// Reads the little-endian `u64` at `pos`.
pub fn read_u64_le(s: &[u8], pos: usize) -> (r: u64)
    requires
        pos + 8 <= s@.len(),
    ensures
        r == spec_u64_from_le(s@.subrange(pos as int, pos + 8)),
{
    let r = (s[pos] as u64) | ((s[pos + 1] as u64) << 8u64) | ((s[pos + 2] as u64) << 16u64) | ((
    s[pos + 3] as u64) << 24u64) | ((s[pos + 4] as u64) << 32u64) | ((s[pos + 5] as u64)
        << 40u64) | ((s[pos + 6] as u64) << 48u64) | ((s[pos + 7] as u64) << 56u64);
    r
}

/// Appends the 32 bytes of a key.
pub fn write_key(out: &mut Vec<u8>, k: &[u8; 32])
    ensures
        final(out)@ == old(out)@ + k@,
{
    let ghost start = out@;
    let mut i: usize = 0;
    while i < 32
        invariant
            i <= 32,
            k@.len() == 32,
            out@ == start + k@.subrange(0, i as int),
        decreases 32 - i,
    {
        out.push(k[i]);
        i = i + 1;
        assert(out@ =~= start + k@.subrange(0, i as int));
    }
    assert(k@.subrange(0, 32) =~= k@);
}

/// Reads the 32 bytes of a key at `pos`.
pub fn read_key(s: &[u8], pos: usize) -> (r: [u8; 32])
    requires
        pos + 32 <= s@.len(),
    ensures
        r@ == s@.subrange(pos as int, pos + 32),
{
    let mut r = [0u8; 32];
    let mut i: usize = 0;
    while i < 32
        invariant
            i <= 32,
            pos + 32 <= s.len(),
            r@.len() == 32,
            forall|j: int| 0 <= j < i ==> r@[j] == s@[pos + j],
        decreases 32 - i,
    {
        r[i] = s[pos + i];
        i = i + 1;
    }
    assert(r@ =~= s@.subrange(pos as int, pos + 32));
    r
}

/// Appends the 8 bytes of a discriminant.
pub fn write_discriminant(out: &mut Vec<u8>, d: &[u8; 8])
    ensures
        final(out)@ == old(out)@ + d@,
{
    let ghost start = out@;
    let mut i: usize = 0;
    while i < 8
        invariant
            i <= 8,
            d@.len() == 8,
            out@ == start + d@.subrange(0, i as int),
        decreases 8 - i,
    {
        out.push(d[i]);
        i = i + 1;
        assert(out@ =~= start + d@.subrange(0, i as int));
    }
    assert(d@.subrange(0, 8) =~= d@);
}

/// Reads the 8 bytes of a discriminant at `pos`.
pub fn read_discriminant(s: &[u8], pos: usize) -> (r: [u8; 8])
    requires
        pos + 8 <= s@.len(),
    ensures
        r@ == s@.subrange(pos as int, pos + 8),
{
    let mut r = [0u8; 8];
    let mut i: usize = 0;
    while i < 8
        invariant
            i <= 8,
            pos + 8 <= s.len(),
            r@.len() == 8,
            forall|j: int| 0 <= j < i ==> r@[j] == s@[pos + j],
        decreases 8 - i,
    {
        r[i] = s[pos + i];
        i = i + 1;
    }
    assert(r@ =~= s@.subrange(pos as int, pos + 8));
    r
}

/// Whether two keys hold the same bytes.
pub fn keys_equal(a: &[u8; 32], b: &[u8; 32]) -> (r: bool)
    ensures
        r == (a@ == b@),
{
    let mut i: usize = 0;
    while i < 32
        invariant
            i <= 32,
            a@.len() == 32,
            b@.len() == 32,
            forall|j: int| 0 <= j < i ==> a@[j] == b@[j],
        decreases 32 - i,
    {
        if a[i] != b[i] {
            return false;
        }
        i = i + 1;
    }
    assert(a@ =~= b@);
    true
}

/// Whether two discriminants hold the same bytes.
pub fn discriminants_equal(a: &[u8; 8], b: &[u8; 8]) -> (r: bool)
    ensures
        r == (a@ == b@),
{
    let mut i: usize = 0;
    while i < 8
        invariant
            i <= 8,
            a@.len() == 8,
            b@.len() == 8,
            forall|j: int| 0 <= j < i ==> a@[j] == b@[j],
        decreases 8 - i,
    {
        if a[i] != b[i] {
            return false;
        }
        i = i + 1;
    }
    assert(a@ =~= b@);
    true
}

/// The bytes of a key as a vector.
pub fn key_to_vec(k: &[u8; 32]) -> (r: Vec<u8>)
    ensures
        r@ == k@,
{
    let mut r: Vec<u8> = Vec::new();
    write_key(&mut r, k);
    assert(r@ =~= k@);
    r
}

} // verus!
