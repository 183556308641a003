use hmac::Mac;
use vstd::prelude::*;

verus! {

/// What `base32::encode` returns for the RFC 4648 alphabet without padding.
pub uninterp spec fn base32_text(data: Seq<u8>) -> Seq<char>;

/// What `base32::decode` returns for the RFC 4648 alphabet without padding.
pub uninterp spec fn base32_bytes(text: Seq<char>) -> Option<Seq<u8>>;

/// The HMAC-SHA1 tag of `msg` under `key`.
pub uninterp spec fn hmac_sha1_tag(key: Seq<u8>, msg: Seq<u8>) -> Seq<u8>;

/// A character of the RFC 4648 base-32 alphabet.
pub open spec fn is_base32_char(c: char) -> bool {
    ('A' <= c && c <= 'Z') || ('2' <= c && c <= '7')
}

/// Relies on base32::encode with `Alphabet::Rfc4648 { padding: false }`: the
/// text uses the alphabet only (no padding), and base32::decode with the same
/// alphabet gives the bytes back.
#[verifier::external_body]
fn base32_encode(data: &[u8]) -> (r: String)
    ensures
        r@ == base32_text(data@),
        base32_bytes(r@) == Some(data@),
        forall|i: int| 0 <= i < r@.len() ==> is_base32_char(#[trigger] r@[i]),
{
    base32::encode(base32::Alphabet::Rfc4648 { padding: false }, data)
}

/// Relies on base32::decode with `Alphabet::Rfc4648 { padding: false }`:
/// `None` when the text holds a character outside the alphabet.
#[verifier::external_body]
fn base32_decode(text: &str) -> (r: Option<Vec<u8>>)
    ensures
        match r {
            Some(v) => base32_bytes(text@) == Some(v@),
            None => base32_bytes(text@).is_none(),
        },
{
    base32::decode(base32::Alphabet::Rfc4648 { padding: false }, text)
}

/// Relies on hmac::Hmac<sha1::Sha1>: `new_from_slice` accepts a key of any
/// length, and the finalized tag is a SHA-1 output of 20 bytes.
#[verifier::external_body]
fn hmac_sha1(key: &[u8], msg: &[u8]) -> (r: Vec<u8>)
    ensures
        r@ == hmac_sha1_tag(key@, msg@),
        r@.len() == 20,
{
    let mut mac = <hmac::Hmac<sha1::Sha1> as Mac>::new_from_slice(key)
        .expect("HMAC takes keys of any length");
    mac.update(msg);
    mac.finalize().into_bytes().to_vec()
}

/// The mask byte applied at position `i` of an obfuscated secret.
pub open spec fn mask_at(i: int) -> u8 {
    ((i % 33) + 9) as u8
}

/// The obfuscated bytes with the positional mask removed.
pub open spec fn unmasked(cipher: Seq<u8>) -> Seq<u8> {
    Seq::new(cipher.len(), |i: int| cipher[i] ^ mask_at(i))
}

/// ASCII code of the decimal digit `d`.
pub open spec fn digit_code(d: int) -> u8 {
    (48 + d) as u8
}

/// The decimal text of one byte, as ASCII codes, without leading zeros.
pub open spec fn byte_decimal(b: u8) -> Seq<u8> {
    if b >= 100 {
        seq![digit_code(b as int / 100), digit_code((b as int / 10) % 10), digit_code(b as int % 10)]
    } else if b >= 10 {
        seq![digit_code(b as int / 10), digit_code(b as int % 10)]
    } else {
        seq![digit_code(b as int)]
    }
}

/// The decimal texts of all bytes, concatenated.
pub open spec fn decimal_concat(bs: Seq<u8>) -> Seq<u8>
    decreases bs.len(),
{
    if bs.len() == 0 {
        Seq::empty()
    } else {
        decimal_concat(bs.drop_last()) + byte_decimal(bs.last())
    }
}

/// The TOTP secret that an obfuscated byte sequence stands for.
pub open spec fn derived_secret(cipher: Seq<u8>) -> Seq<char> {
    base32_text(decimal_concat(unmasked(cipher)))
}

/// Removes the positional mask from an obfuscated secret.
pub fn xor_transform_secret(cipher: &[u8]) -> (r: Vec<u8>)
    ensures
        r@ == unmasked(cipher@),
{
    let mut out: Vec<u8> = Vec::new();
    let mut i: usize = 0;
    while i < cipher.len()
        invariant
            i <= cipher@.len(),
            out@ == unmasked(cipher@).subrange(0, i as int),
        decreases cipher@.len() - i,
    {
        let m: u8 = ((i % 33) + 9) as u8;
        out.push(cipher[i] ^ m);
        i = i + 1;
        assert(out@ =~= unmasked(cipher@).subrange(0, i as int));
    }
    assert(out@ =~= unmasked(cipher@));
    out
}

/// Appends the decimal text of `b` to `out`.
fn push_decimal(out: &mut Vec<u8>, b: u8)
    ensures
        final(out)@ == old(out)@ + byte_decimal(b),
{
    if b >= 100 {
        out.push(48 + b / 100);
        out.push(48 + (b / 10) % 10);
        out.push(48 + b % 10);
    } else if b >= 10 {
        out.push(48 + b / 10);
        out.push(48 + b % 10);
    } else {
        out.push(48 + b);
    }
    assert(final(out)@ =~= old(out)@ + byte_decimal(b));
}

/// The decimal texts of all bytes, concatenated, as ASCII codes.
pub fn decimal_digits(bytes: &[u8]) -> (r: Vec<u8>)
    ensures
        r@ == decimal_concat(bytes@),
{
    let mut out: Vec<u8> = Vec::new();
    let mut i: usize = 0;
    while i < bytes.len()
        invariant
            i <= bytes@.len(),
            out@ == decimal_concat(bytes@.subrange(0, i as int)),
        decreases bytes@.len() - i,
    {
        proof {
            let next = bytes@.subrange(0, i as int + 1);
            assert(next.drop_last() =~= bytes@.subrange(0, i as int));
            assert(next.last() == bytes@[i as int]);
        }
        push_decimal(&mut out, bytes[i]);
        i = i + 1;
    }
    assert(bytes@.subrange(0, bytes@.len() as int) =~= bytes@);
    out
}

/// Derives the base-32 TOTP secret from obfuscated secret bytes: unmask each
/// byte, write the bytes in decimal one after another, and base-32 encode
/// that digit text.
pub fn derive_secret(cipher: &[u8]) -> (r: String)
    ensures
        r@ == derived_secret(cipher@),
        base32_bytes(r@) == Some(decimal_concat(unmasked(cipher@))),
        forall|i: int| 0 <= i < r@.len() ==> is_base32_char(#[trigger] r@[i]),
{
    let plain = xor_transform_secret(cipher);
    let digits = decimal_digits(plain.as_slice());
    base32_encode(digits.as_slice())
}

/// Seconds in one TOTP time step.
pub const TIME_STEP: u64 = 30;

/// The eight big-endian bytes of `c`.
pub open spec fn be_bytes(c: int) -> Seq<u8> {
    seq![
        ((c / 0x100000000000000) % 256) as u8,
        ((c / 0x1000000000000) % 256) as u8,
        ((c / 0x10000000000) % 256) as u8,
        ((c / 0x100000000) % 256) as u8,
        ((c / 0x1000000) % 256) as u8,
        ((c / 0x10000) % 256) as u8,
        ((c / 0x100) % 256) as u8,
        (c % 256) as u8,
    ]
}

/// The HMAC message for a timestamp: the index of its time step, big-endian.
pub open spec fn counter_message(timestamp: int) -> Seq<u8> {
    be_bytes(timestamp / 30)
}

/// Dynamic truncation of a 20-byte tag: the low nibble of the last byte picks
/// four bytes, read big-endian with the top bit cleared.
pub open spec fn truncated(mac: Seq<u8>) -> int {
    let o = (mac[19] % 16) as int;
    (mac[o] % 128) as int * 0x1000000 + mac[o + 1] as int * 0x10000 + mac[o + 2] as int * 0x100
        + mac[o + 3] as int
}

/// The decimal digit `d` as a character.
pub open spec fn digit_char(d: int) -> char {
    if d == 0 { '0' }
    else if d == 1 { '1' }
    else if d == 2 { '2' }
    else if d == 3 { '3' }
    else if d == 4 { '4' }
    else if d == 5 { '5' }
    else if d == 6 { '6' }
    else if d == 7 { '7' }
    else if d == 8 { '8' }
    else { '9' }
}

/// The last six decimal digits of `n`, zero-padded.
pub open spec fn six_digits(n: int) -> Seq<char> {
    seq![
        digit_char((n / 100000) % 10),
        digit_char((n / 10000) % 10),
        digit_char((n / 1000) % 10),
        digit_char((n / 100) % 10),
        digit_char((n / 10) % 10),
        digit_char(n % 10),
    ]
}

/// The one-time password for a 20-byte HMAC tag.
pub open spec fn otp_of_tag(mac: Seq<u8>) -> Seq<char> {
    six_digits(truncated(mac) % 1000000)
}

/// The one-time password for a secret at a timestamp, if the secret decodes.
pub open spec fn otp_for(secret: Seq<char>, timestamp: int) -> Option<Seq<char>> {
    match base32_bytes(secret) {
        Some(key) => Some(otp_of_tag(hmac_sha1_tag(key, counter_message(timestamp)))),
        None => None,
    }
}

/// The big-endian bytes of a time-step counter.
pub fn counter_bytes(c: u64) -> (r: Vec<u8>)
    ensures
        r@ == be_bytes(c as int),
{
    let mut out: Vec<u8> = Vec::new();
    out.push(((c / 0x100000000000000) % 256) as u8);
    out.push(((c / 0x1000000000000) % 256) as u8);
    out.push(((c / 0x10000000000) % 256) as u8);
    out.push(((c / 0x100000000) % 256) as u8);
    out.push(((c / 0x1000000) % 256) as u8);
    out.push(((c / 0x10000) % 256) as u8);
    out.push(((c / 0x100) % 256) as u8);
    out.push((c % 256) as u8);
    assert(out@ =~= be_bytes(c as int));
    out
}

/// Appends the character of decimal digit `d` to `s`.
fn push_digit(s: &mut String, d: u32)
    requires
        d < 10,
    ensures
        final(s)@ == old(s)@ + seq![digit_char(d as int)],
{
    let t: &str = if d == 0 { "0" }
        else if d == 1 { "1" }
        else if d == 2 { "2" }
        else if d == 3 { "3" }
        else if d == 4 { "4" }
        else if d == 5 { "5" }
        else if d == 6 { "6" }
        else if d == 7 { "7" }
        else if d == 8 { "8" }
        else { "9" };
    proof {
        reveal_strlit("0");
        reveal_strlit("1");
        reveal_strlit("2");
        reveal_strlit("3");
        reveal_strlit("4");
        reveal_strlit("5");
        reveal_strlit("6");
        reveal_strlit("7");
        reveal_strlit("8");
        reveal_strlit("9");
        assert(t@ =~= seq![digit_char(d as int)]);
    }
    s.append(t);
}

/// Writes the last six decimal digits of `n`, zero-padded.
pub fn format_six_digits(n: u32) -> (r: String)
    ensures
        r@ == six_digits(n as int),
{
    let mut s = String::new();
    push_digit(&mut s, (n / 100000) % 10);
    push_digit(&mut s, (n / 10000) % 10);
    push_digit(&mut s, (n / 1000) % 10);
    push_digit(&mut s, (n / 100) % 10);
    push_digit(&mut s, (n / 10) % 10);
    push_digit(&mut s, n % 10);
    assert(s@ =~= six_digits(n as int));
    s
}

/// The six-digit one-time password for a 20-byte HMAC-SHA1 tag.
pub fn otp_from_mac(mac: &[u8]) -> (r: String)
    requires
        mac@.len() == 20,
    ensures
        r@ == otp_of_tag(mac@),
{
    let o: usize = (mac[19] % 16) as usize;
    let binary: u32 = (mac[o] % 128) as u32 * 0x1000000 + mac[o + 1] as u32 * 0x10000
        + mac[o + 2] as u32 * 0x100 + mac[o + 3] as u32;
    format_six_digits(binary % 1000000)
}

/// The TOTP code of a base-32 secret at a Unix timestamp, with 30-second
/// steps, HMAC-SHA1 and six digits; `None` when the secret is not base-32.
pub fn generate_totp(secret: &str, timestamp: u64) -> (r: Option<String>)
    ensures
        match r {
            Some(code) => otp_for(secret@, timestamp as int) == Some(code@),
            None => otp_for(secret@, timestamp as int).is_none(),
        },
{
    let key = match base32_decode(secret) {
        Some(k) => k,
        None => return None,
    };
    let msg = counter_bytes(timestamp / TIME_STEP);
    let mac = hmac_sha1(key.as_slice(), msg.as_slice());
    Some(otp_from_mac(mac.as_slice()))
}

/// Two derivations from the same bytes give the same secret.
pub proof fn lemma_derive_secret_deterministic(a: Seq<u8>, b: Seq<u8>)
    requires
        a == b,
    ensures
        derived_secret(a) == derived_secret(b),
{
}

} // verus!
