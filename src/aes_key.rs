//! Decryption keys: a 32-byte AES key written as hexadecimal (optionally
//! after `0x`) or as standard base64 (padding optional).

use vstd::prelude::*;
use crate::error::UeToolError;
use crate::text::chars_of;

verus! {

/// Value of a hexadecimal digit, either case.
pub open spec fn hex_val(c: char) -> Option<u8> {
    if '0' <= c && c <= '9' {
        Some(((c as u8) - 48) as u8)
    } else if 'a' <= c && c <= 'f' {
        Some(((c as u8) - 87) as u8)
    } else if 'A' <= c && c <= 'F' {
        Some(((c as u8) - 55) as u8)
    } else {
        None
    }
}

/// Whether `s` is an even number of hexadecimal digits.
pub open spec fn is_hex_text(s: Seq<char>) -> bool {
    s.len() % 2 == 0 && forall|i: int| 0 <= i < s.len() ==> (#[trigger] hex_val(s[i])) is Some
}

/// The bytes that hexadecimal text spells, two digits each, high digit first.
pub open spec fn hex_bytes(s: Seq<char>) -> Seq<u8> {
    Seq::new(
        (s.len() / 2) as nat,
        |i: int| (hex_val(s[2 * i]).unwrap() * 16 + hex_val(s[2 * i + 1]).unwrap()) as u8,
    )
}

/// What standard base64 without padding decodes `s` to, if it is valid.
pub uninterp spec fn base64_unpadded(s: Seq<char>) -> Option<Seq<u8>>;

/// Relies on `hex::decode`: it succeeds exactly on an even number of
/// hexadecimal digits (either case), giving the bytes they spell.
#[verifier::external_body]
fn decode_hex(s: &str) -> (r: Option<Vec<u8>>)
    ensures
        match r {
            Some(b) => is_hex_text(s@) && b@ == hex_bytes(s@),
            None => !is_hex_text(s@),
        },
{
    hex::decode(s).ok()
}

/// Relies on the `decode` of base64's `STANDARD_NO_PAD` engine; its result
/// depends on the text alone.
#[verifier::external_body]
fn decode_base64_unpadded(s: &str) -> (r: Option<Vec<u8>>)
    ensures
        match r {
            Some(b) => base64_unpadded(s@) == Some(b@),
            None => base64_unpadded(s@).is_none(),
        },
{
    base64::Engine::decode(&base64::engine::general_purpose::STANDARD_NO_PAD, s).ok()
}

/// A 32-byte AES-256 key.
#[derive(Debug, Clone)]
pub struct AesKey {
    bytes: Vec<u8>,
}

impl View for AesKey {
    type V = Seq<u8>;

    closed spec fn view(&self) -> Seq<u8> {
        self.bytes@
    }
}

impl AesKey {
    /// The key's bytes.
    pub fn as_bytes(&self) -> (r: &Vec<u8>)
        ensures
            r@ == self@,
    {
        &self.bytes
    }
}

/// `s` without a leading `0x`.
pub open spec fn strip_hex_prefix(s: Seq<char>) -> Seq<char> {
    if s.len() >= 2 && s[0] == '0' && s[1] == 'x' {
        s.subrange(2, s.len() as int)
    } else {
        s
    }
}

/// `s` without its trailing `=` characters.
pub open spec fn trim_padding(s: Seq<char>) -> Seq<char>
    decreases s.len(),
{
    if s.len() > 0 && s.last() == '=' {
        trim_padding(s.drop_last())
    } else {
        s
    }
}

/// The key bytes that hexadecimal text gives, when it spells 32 bytes.
pub open spec fn hex_key(s: Seq<char>) -> Option<Seq<u8>> {
    let h = strip_hex_prefix(s);
    if is_hex_text(h) && hex_bytes(h).len() == 32 {
        Some(hex_bytes(h))
    } else {
        None
    }
}

/// The message of the error for a key text that is no key.
pub open spec fn bad_key_message(s: Seq<char>) -> Seq<char> {
    "Invalid AES key format: "@ + s
}

fn strip_hex_prefix_exec(s: &str) -> (r: &str)
    ensures
        r@ == strip_hex_prefix(s@),
{
    let c = chars_of(s);
    if c.len() >= 2 && c[0] == '0' && c[1] == 'x' {
        s.substring_char(2, c.len())
    } else {
        s
    }
}

fn trim_padding_exec(s: &str) -> (r: &str)
    ensures
        r@ == trim_padding(s@),
{
    let c = chars_of(s);
    let mut n: usize = c.len();
    assert(s@.subrange(0, n as int) =~= s@);
    while n > 0 && c[n - 1] == '='
        invariant
            n <= c.len(),
            c@ == s@,
            trim_padding(s@) == trim_padding(s@.subrange(0, n as int)),
        decreases n,
    {
        assert(s@.subrange(0, n as int).drop_last() =~= s@.subrange(0, n - 1));
        n = n - 1;
    }
    s.substring_char(0, n)
}

/// The key that the base64 decoding of a key text gives: `decoded` is what
/// decoding the text without its padding returned. It is a key when it is
/// 32 bytes; otherwise the text is reported as an invalid key.
pub fn key_from_decoded(s: &str, decoded: Option<Vec<u8>>) -> (r: Result<AesKey, UeToolError>)
    ensures
        match decoded {
            Some(b) => b@.len() == 32 ==> (r matches Ok(k) && k@ == b@),
            None => true,
        },
        (match decoded {
            Some(b) => b@.len() != 32,
            None => true,
        }) ==> (r matches Err(UeToolError::InvalidAesKey(m)) && m@ == bad_key_message(s@)),
{
    match decoded {
        Some(b) => {
            if b.len() == 32 {
                return Ok(AesKey { bytes: b });
            }
        },
        None => {},
    }
    Err(UeToolError::InvalidAesKey(String::from_str("Invalid AES key format: ").concat(s)))
}

/// Parses a key text: 64 hexadecimal digits, optionally after `0x`, or the
/// standard base64 of 32 bytes, padding optional. Anything else fails with
/// `InvalidAesKey`, and no other error.
pub fn parse_aes_key(s: &str) -> (r: Result<AesKey, UeToolError>)
    ensures
        hex_key(s@) matches Some(b) ==> (r matches Ok(k) && k@ == b),
        hex_key(s@) is None ==> match base64_unpadded(trim_padding(s@)) {
            Some(b) => if b.len() == 32 {
                r matches Ok(k) && k@ == b
            } else {
                r matches Err(UeToolError::InvalidAesKey(m)) && m@ == bad_key_message(s@)
            },
            None => r matches Err(UeToolError::InvalidAesKey(m)) && m@ == bad_key_message(s@),
        },
        r matches Err(e) ==> e is InvalidAesKey,
{
    let h = strip_hex_prefix_exec(s);
    match decode_hex(h) {
        Some(b) => {
            if b.len() == 32 {
                return Ok(AesKey { bytes: b });
            }
        },
        None => {},
    }
    let decoded = decode_base64_unpadded(trim_padding_exec(s));
    key_from_decoded(s, decoded)
}

/// Checks an optional key text: no text gives no key; a text gives the key
/// that `parse_aes_key` reads from it, or its `InvalidAesKey` error.
pub fn parse_optional_aes_key(s: Option<&str>) -> (r: Result<Option<AesKey>, UeToolError>)
    ensures
        s is None ==> (r matches Ok(k) && k is None),
        s matches Some(t) ==> {
            &&& hex_key(t@) matches Some(b) ==> (r matches Ok(Some(k)) && k@ == b)
            &&& hex_key(t@) is None ==> match base64_unpadded(trim_padding(t@)) {
                Some(b) => if b.len() == 32 {
                    r matches Ok(Some(k)) && k@ == b
                } else {
                    r matches Err(UeToolError::InvalidAesKey(m)) && m@ == bad_key_message(t@)
                },
                None => r matches Err(UeToolError::InvalidAesKey(m)) && m@ == bad_key_message(t@),
            }
        },
        r matches Err(e) ==> e is InvalidAesKey,
{
    match s {
        None => Ok(None),
        Some(t) => match parse_aes_key(t) {
            Ok(k) => Ok(Some(k)),
            Err(e) => Err(e),
        },
    }
}

} // verus!
