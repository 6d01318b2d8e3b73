use vstd::prelude::*;
use base64::engine::general_purpose::STANDARD;
use base64::Engine;

use crate::error::{Result, VaultError};

verus! {

/// The ASCII code of `|`, the separator inside associated data.
pub const SEPARATOR: u8 = 124;

/// The ASCII code of `-`, the group separator of a hyphenated UUID.
pub const HYPHEN: u8 = 45;

/// Lower-case hexadecimal digit for a value below 16.
pub open spec fn hex_digit(n: int) -> u8 {
    if n < 10 { (48 + n) as u8 } else { (87 + n) as u8 }
}

/// The two lower-case hexadecimal digits of a byte, high nibble first.
pub open spec fn hex_byte(b: u8) -> Seq<u8> {
    seq![hex_digit((b / 16) as int), hex_digit((b % 16) as int)]
}

/// Lower-case hexadecimal text of a byte string.
pub open spec fn hex_text(s: Seq<u8>) -> Seq<u8>
    decreases s.len(),
{
    if s.len() == 0 {
        Seq::empty()
    } else {
        hex_text(s.drop_last()) + hex_byte(s.last())
    }
}

/// The hyphenated lower-case text of a 16-byte UUID, `8-4-4-4-12` hex digits.
pub open spec fn uuid_text(id: Seq<u8>) -> Seq<u8> {
    hex_text(id.subrange(0, 4)) + seq![HYPHEN] + hex_text(id.subrange(4, 6)) + seq![HYPHEN]
        + hex_text(id.subrange(6, 8)) + seq![HYPHEN] + hex_text(id.subrange(8, 10)) + seq![HYPHEN]
        + hex_text(id.subrange(10, 16))
}

/// Decimal ASCII text of a natural number, without leading zeros.
pub open spec fn decimal_text(n: nat) -> Seq<u8>
    decreases n,
{
    if n < 10 {
        seq![(48 + n) as u8]
    } else {
        decimal_text(n / 10) + seq![(48 + n % 10) as u8]
    }
}

pub proof fn lemma_hex_text_len(s: Seq<u8>)
    ensures
        hex_text(s).len() == 2 * s.len(),
    decreases s.len(),
{
    if s.len() > 0 {
        lemma_hex_text_len(s.drop_last());
    }
}

proof fn lemma_hex_digit_injective(a: int, b: int)
    requires
        0 <= a < 16,
        0 <= b < 16,
        hex_digit(a) == hex_digit(b),
    ensures
        a == b,
{
}

proof fn lemma_hex_byte_injective(a: u8, b: u8)
    requires
        hex_byte(a) == hex_byte(b),
    ensures
        a == b,
{
    assert(hex_byte(a)[0] == hex_byte(b)[0]);
    assert(hex_byte(a)[1] == hex_byte(b)[1]);
    lemma_hex_digit_injective((a / 16) as int, (b / 16) as int);
    lemma_hex_digit_injective((a % 16) as int, (b % 16) as int);
}

/// Equal hexadecimal texts come from equal byte strings of one length.
pub proof fn lemma_hex_text_injective(s: Seq<u8>, t: Seq<u8>)
    requires
        s.len() == t.len(),
        hex_text(s) == hex_text(t),
    ensures
        s == t,
    decreases s.len(),
{
    if s.len() > 0 {
        let hs = hex_text(s.drop_last());
        let ht = hex_text(t.drop_last());
        lemma_hex_text_len(s.drop_last());
        lemma_hex_text_len(t.drop_last());
        let n = hs.len() as int;
        assert(hex_text(s).subrange(0, n) =~= hs);
        assert(hex_text(t).subrange(0, n) =~= ht);
        assert(hex_text(s).subrange(n, n + 2) =~= hex_byte(s.last()));
        assert(hex_text(t).subrange(n, n + 2) =~= hex_byte(t.last()));
        lemma_hex_text_injective(s.drop_last(), t.drop_last());
        lemma_hex_byte_injective(s.last(), t.last());
        assert(s =~= s.drop_last().push(s.last()));
        assert(t =~= t.drop_last().push(t.last()));
    } else {
        assert(s =~= t);
    }
}

pub proof fn lemma_uuid_text_len(id: Seq<u8>)
    requires
        id.len() == 16,
    ensures
        uuid_text(id).len() == 36,
{
    lemma_hex_text_len(id.subrange(0, 4));
    lemma_hex_text_len(id.subrange(4, 6));
    lemma_hex_text_len(id.subrange(6, 8));
    lemma_hex_text_len(id.subrange(8, 10));
    lemma_hex_text_len(id.subrange(10, 16));
}

/// Distinct 16-byte UUIDs have distinct hyphenated texts.
pub proof fn lemma_uuid_text_injective(a: Seq<u8>, b: Seq<u8>)
    requires
        a.len() == 16,
        b.len() == 16,
        uuid_text(a) == uuid_text(b),
    ensures
        a == b,
{
    lemma_hex_text_len(a.subrange(0, 4));
    lemma_hex_text_len(a.subrange(4, 6));
    lemma_hex_text_len(a.subrange(6, 8));
    lemma_hex_text_len(a.subrange(8, 10));
    lemma_hex_text_len(a.subrange(10, 16));
    lemma_hex_text_len(b.subrange(0, 4));
    lemma_hex_text_len(b.subrange(4, 6));
    lemma_hex_text_len(b.subrange(6, 8));
    lemma_hex_text_len(b.subrange(8, 10));
    lemma_hex_text_len(b.subrange(10, 16));
    let ta = uuid_text(a);
    let tb = uuid_text(b);
    assert(ta.subrange(0, 8) =~= hex_text(a.subrange(0, 4)));
    assert(tb.subrange(0, 8) =~= hex_text(b.subrange(0, 4)));
    assert(ta.subrange(9, 13) =~= hex_text(a.subrange(4, 6)));
    assert(tb.subrange(9, 13) =~= hex_text(b.subrange(4, 6)));
    assert(ta.subrange(14, 18) =~= hex_text(a.subrange(6, 8)));
    assert(tb.subrange(14, 18) =~= hex_text(b.subrange(6, 8)));
    assert(ta.subrange(19, 23) =~= hex_text(a.subrange(8, 10)));
    assert(tb.subrange(19, 23) =~= hex_text(b.subrange(8, 10)));
    assert(ta.subrange(24, 36) =~= hex_text(a.subrange(10, 16)));
    assert(tb.subrange(24, 36) =~= hex_text(b.subrange(10, 16)));
    lemma_hex_text_injective(a.subrange(0, 4), b.subrange(0, 4));
    lemma_hex_text_injective(a.subrange(4, 6), b.subrange(4, 6));
    lemma_hex_text_injective(a.subrange(6, 8), b.subrange(6, 8));
    lemma_hex_text_injective(a.subrange(8, 10), b.subrange(8, 10));
    lemma_hex_text_injective(a.subrange(10, 16), b.subrange(10, 16));
    assert forall|i: int| 0 <= i < 16 implies a[i] == b[i] by {
        if i < 4 {
            assert(a.subrange(0, 4)[i] == b.subrange(0, 4)[i]);
        } else if i < 6 {
            assert(a.subrange(4, 6)[i - 4] == b.subrange(4, 6)[i - 4]);
        } else if i < 8 {
            assert(a.subrange(6, 8)[i - 6] == b.subrange(6, 8)[i - 6]);
        } else if i < 10 {
            assert(a.subrange(8, 10)[i - 8] == b.subrange(8, 10)[i - 8]);
        } else {
            assert(a.subrange(10, 16)[i - 10] == b.subrange(10, 16)[i - 10]);
        }
    }
    assert(a =~= b);
}

pub proof fn lemma_decimal_text_len(n: nat)
    ensures
        decimal_text(n).len() >= 1,
        n >= 10 ==> decimal_text(n).len() >= 2,
    decreases n,
{
    if n >= 10 {
        lemma_decimal_text_len(n / 10);
    }
}

/// Distinct numbers have distinct decimal texts.
pub proof fn lemma_decimal_text_injective(a: nat, b: nat)
    requires
        decimal_text(a) == decimal_text(b),
    ensures
        a == b,
    decreases a,
{
    lemma_decimal_text_len(a);
    lemma_decimal_text_len(b);
    let ta = decimal_text(a);
    let tb = decimal_text(b);
    if a < 10 && b < 10 {
        assert(ta[0] == tb[0]);
    } else if a >= 10 && b >= 10 {
        lemma_decimal_text_len(a / 10);
        lemma_decimal_text_len(b / 10);
        let n = ta.len() - 1;
        assert(ta.subrange(0, n) =~= decimal_text(a / 10));
        assert(tb.subrange(0, n) =~= decimal_text(b / 10));
        assert(ta[n] == tb[n]);
        lemma_decimal_text_injective(a / 10, b / 10);
    } else {
        assert(ta.len() == tb.len());
    }
}

/// Appends the hexadecimal text of `bytes[from..to]`.
fn append_hex(out: &mut Vec<u8>, bytes: &[u8], from: usize, to: usize)
    requires
        from <= to <= bytes@.len(),
    ensures
        final(out)@ == old(out)@ + hex_text(bytes@.subrange(from as int, to as int)),
{
    let ghost start = out@;
    let mut i = from;
    assert(bytes@.subrange(from as int, from as int) =~= Seq::<u8>::empty());
    assert(start + hex_text(Seq::<u8>::empty()) =~= start);
    while i < to
        invariant
            from <= i <= to <= bytes@.len(),
            out@ == start + hex_text(bytes@.subrange(from as int, i as int)),
        decreases to - i,
    {
        let b = bytes[i];
        let hi = b / 16;
        let lo = b % 16;
        let c_hi: u8 = if hi < 10 { 48 + hi } else { 87 + hi };
        let c_lo: u8 = if lo < 10 { 48 + lo } else { 87 + lo };
        out.push(c_hi);
        out.push(c_lo);
        proof {
            let next = bytes@.subrange(from as int, i + 1);
            assert(next.drop_last() =~= bytes@.subrange(from as int, i as int));
            assert(next.last() == b);
            assert(out@ =~= start + hex_text(next));
        }
        i += 1;
    }
}

/// Appends the hyphenated lower-case text of a UUID given by its 16 bytes.
pub fn append_uuid_text(out: &mut Vec<u8>, id: &[u8; 16])
    ensures
        final(out)@ == old(out)@ + uuid_text(id@),
{
    let ghost start = out@;
    let bytes = id.as_slice();
    append_hex(out, bytes, 0, 4);
    out.push(HYPHEN);
    append_hex(out, bytes, 4, 6);
    out.push(HYPHEN);
    append_hex(out, bytes, 6, 8);
    out.push(HYPHEN);
    append_hex(out, bytes, 8, 10);
    out.push(HYPHEN);
    append_hex(out, bytes, 10, 16);
    assert(out@ =~= start + uuid_text(id@));
}

/// Appends the decimal text of `n`.
pub fn append_decimal(out: &mut Vec<u8>, n: u32)
    ensures
        final(out)@ == old(out)@ + decimal_text(n as nat),
    decreases n,
{
    if n < 10 {
        out.push(48 + n as u8);
        assert(final(out)@ =~= old(out)@ + decimal_text(n as nat));
    } else {
        let ghost start = out@;
        append_decimal(out, n / 10);
        out.push(48 + (n % 10) as u8);
        assert(out@ =~= start + decimal_text(n as nat));
    }
}

#[verifier::external_type_specification]
#[verifier::external_body]
pub struct ExDecodeError(base64::DecodeError);

/// The standard padded base64 text of a byte string.
pub uninterp spec fn base64_encode(bytes: Seq<u8>) -> Seq<char>;

/// The bytes that standard padded base64 text decodes to, `None` when the
/// text is not valid base64.
pub uninterp spec fn base64_decode(text: Seq<char>) -> Option<Seq<u8>>;

/// Length of the padded base64 text of `n` bytes.
pub open spec fn base64_len(n: nat) -> nat {
    if n % 3 == 0 { n / 3 * 4 } else { n / 3 * 4 + 4 }
}

/// Encodes with `base64::engine::general_purpose::STANDARD`.
///
/// Calls `Engine::encode`. The contract claims the output is the value named
/// `base64_encode` and, as `encoded_len` in the crate computes it, has
/// 4 characters per started group of 3 bytes. `encode` panics when that
/// length overflows and the buffer allocation fails beyond `isize::MAX`;
/// both are left out by `requires`.
#[verifier::external_body]
fn base64_standard_encode(bytes: &[u8]) -> (text: String)
    requires
        base64_len(bytes@.len()) <= isize::MAX,
    ensures
        text@ == base64_encode(bytes@),
        text@.len() == base64_len(bytes@.len()),
{
    STANDARD.encode(bytes)
}

/// Decodes with `base64::engine::general_purpose::STANDARD`.
///
/// Calls `Engine::decode`. The contract claims the result is the value named
/// `base64_decode`, and that text produced by `encode` with the same engine
/// decodes back to the encoded bytes.
#[verifier::external_body]
fn base64_standard_decode(text: &str) -> (r: core::result::Result<Vec<u8>, base64::DecodeError>)
    ensures
        match r {
            Ok(b) => base64_decode(text@) == Some(b@),
            Err(_) => base64_decode(text@) is None,
        },
        forall|b: Seq<u8>| text@ == base64_encode(b) ==> (r is Ok && r->Ok_0@ == b),
{
    STANDARD.decode(text)
}

/// Encodes bytes as standard padded base64, as the vault files store them.
pub fn encode_base64(bytes: &[u8]) -> (text: String)
    requires
        base64_len(bytes@.len()) <= isize::MAX,
    ensures
        text@ == base64_encode(bytes@),
        text@.len() == base64_len(bytes@.len()),
{
    base64_standard_encode(bytes)
}

/// Decodes standard padded base64; invalid text is `Malformed`.
pub fn decode_base64(text: &str) -> (r: Result<Vec<u8>>)
    ensures
        match r {
            Ok(b) => base64_decode(text@) == Some(b@),
            Err(e) => e == VaultError::Malformed && base64_decode(text@) is None,
        },
        forall|b: Seq<u8>| text@ == base64_encode(b) ==> (r is Ok && r->Ok_0@ == b),
{
    match base64_standard_decode(text) {
        Ok(bytes) => Ok(bytes),
        Err(_) => Err(VaultError::Malformed),
    }
}

/// Decodes standard padded base64 that must hold exactly `N` bytes.
///
/// Invalid text, and text that decodes to another number of bytes, are
/// `Malformed`.
pub fn decode_base64_array<const N: usize>(text: &str) -> (r: Result<[u8; N]>)
    ensures
        match base64_decode(text@) {
            Some(b) => if b.len() == N {
                r is Ok && r->Ok_0@ == b
            } else {
                r == Err::<[u8; N], VaultError>(VaultError::Malformed)
            },
            None => r == Err::<[u8; N], VaultError>(VaultError::Malformed),
        },
        forall|b: Seq<u8>| b.len() == N && text@ == base64_encode(b) ==> (r is Ok && r->Ok_0@ == b),
{
    let decoded = decode_base64(text)?;
    if decoded.len() != N {
        return Err(VaultError::Malformed);
    }
    let mut out = [0u8; N];
    let mut i: usize = 0;
    while i < N
        invariant
            i <= N,
            decoded@.len() == N,
            forall|j: int| 0 <= j < i ==> out@[j] == decoded@[j],
        decreases N - i,
    {
        out[i] = decoded[i];
        i += 1;
    }
    assert(out@ =~= decoded@);
    Ok(out)
}

} // verus!
