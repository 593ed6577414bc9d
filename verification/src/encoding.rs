//! Digests, hexadecimal and Base64 text, UTF-8 and PEM.

use base64::Engine;
use sha2::Digest;
use vstd::prelude::*;
use vstd::utf8::{decode_utf8, valid_utf8};

verus! {

// ---------------------------------------------------------------------------
// Digests
// ---------------------------------------------------------------------------

/// The SHA-256 digest of the bytes.
pub uninterp spec fn sha256_digest(bytes: Seq<u8>) -> Seq<u8>;

/// The SHA-1 digest of the bytes.
pub uninterp spec fn sha1_digest(bytes: Seq<u8>) -> Seq<u8>;

/// `Sha256::digest`: a function of the bytes, thirty-two bytes long.
#[verifier::external_body]
pub(crate) fn sha256(bytes: &[u8]) -> (r: Vec<u8>)
    ensures
        r@ == sha256_digest(bytes@),
        r@.len() == 32,
{
    sha2::Sha256::digest(bytes).to_vec()
}

/// `Sha1::digest`: a function of the bytes, twenty bytes long.
#[verifier::external_body]
pub(crate) fn sha1(bytes: &[u8]) -> (r: Vec<u8>)
    ensures
        r@ == sha1_digest(bytes@),
        r@.len() == 20,
{
    sha1::Sha1::digest(bytes).to_vec()
}

// ---------------------------------------------------------------------------
// Hexadecimal and Base64 text
// ---------------------------------------------------------------------------

/// The lower-case hexadecimal digit of a number below sixteen.
pub open spec fn hex_char(d: u8) -> char {
    if d < 10 {
        (48 + d) as char
    } else {
        (87 + d) as char
    }
}

/// Two lower-case hexadecimal digits for each byte.
pub open spec fn hex(bytes: Seq<u8>) -> Seq<char> {
    Seq::new(
        2 * bytes.len(),
        |i: int| hex_char(if i % 2 == 0 { bytes[i / 2] / 16 } else { bytes[i / 2] % 16 }),
    )
}

/// `hex::encode`: each byte as two lower-case digits, the high one first.
#[verifier::external_body]
pub(crate) fn hex_text(bytes: &[u8]) -> (r: String)
    ensures
        r@ == hex(bytes@),
{
    hex::encode(bytes)
}

/// The Base64 text of the bytes, with padding.
pub uninterp spec fn base64_text(bytes: Seq<u8>) -> Seq<char>;

/// The bytes of a padded Base64 text, if it is one.
pub uninterp spec fn base64_bytes(text: Seq<char>) -> Option<Seq<u8>>;

/// The Base64 text of the bytes in the URL-safe alphabet, without padding.
pub uninterp spec fn base64_url_text(bytes: Seq<u8>) -> Seq<char>;

/// `encode` of Base64's standard engine: a function of the bytes.
#[verifier::external_body]
pub(crate) fn base64_encode(bytes: &[u8]) -> (r: String)
    ensures
        r@ == base64_text(bytes@),
{
    base64::engine::general_purpose::STANDARD.encode(bytes)
}

/// `decode` of Base64's standard engine: a function of the text, `None` where
/// it reports an error.
#[verifier::external_body]
pub(crate) fn base64_decode(text: &str) -> (r: Option<Vec<u8>>)
    ensures
        match r {
            Some(bytes) => base64_bytes(text@) == Some(bytes@),
            None => base64_bytes(text@) is None,
        },
{
    base64::engine::general_purpose::STANDARD.decode(text).ok()
}

/// `encode` of Base64's URL-safe engine without padding: a function of the
/// bytes.
#[verifier::external_body]
pub(crate) fn base64_url_encode(bytes: &[u8]) -> (r: String)
    ensures
        r@ == base64_url_text(bytes@),
{
    base64::engine::general_purpose::URL_SAFE_NO_PAD.encode(bytes)
}

// ---------------------------------------------------------------------------
// UTF-8
// ---------------------------------------------------------------------------

/// The text of the bytes, with replacement characters where they are not
/// UTF-8.
pub uninterp spec fn lossy_text(bytes: Seq<u8>) -> Seq<char>;

/// `String::from_utf8`: the text that the bytes encode, `None` where they are
/// not UTF-8.
#[verifier::external_body]
pub(crate) fn utf8_text(bytes: Vec<u8>) -> (r: Option<String>)
    ensures
        match r {
            Some(text) => valid_utf8(bytes@) && text@ == decode_utf8(bytes@),
            None => !valid_utf8(bytes@),
        },
{
    String::from_utf8(bytes).ok()
}

/// `String::from_utf8_lossy`: a function of the bytes, and the text that they
/// encode where they are UTF-8.
#[verifier::external_body]
pub(crate) fn utf8_lossy(bytes: &[u8]) -> (r: String)
    ensures
        r@ == lossy_text(bytes@),
        valid_utf8(bytes@) ==> r@ == decode_utf8(bytes@),
{
    String::from_utf8_lossy(bytes).into_owned()
}

// ---------------------------------------------------------------------------
// PEM
// ---------------------------------------------------------------------------

/// A PEM block: what its framing names it, and the bytes it holds.
pub struct PemBlock {
    pub tag: String,
    pub contents: Vec<u8>,
}

#[verifier::ext_equal]
pub struct PemView {
    pub tag: Seq<char>,
    pub contents: Seq<u8>,
}

impl View for PemBlock {
    type V = PemView;

    open spec fn view(&self) -> PemView {
        PemView { tag: self.tag@, contents: self.contents@ }
    }
}

pub open spec fn view_block(block: Option<PemBlock>) -> Option<PemView> {
    match block {
        Some(block) => Some(block@),
        None => None,
    }
}

/// The first PEM block of the text, if it has a well-formed one.
pub uninterp spec fn parsed_pem(text: Seq<char>) -> Option<PemView>;

/// The first PEM block of the text written out again, headers included.
pub uninterp spec fn rewritten_pem(text: Seq<char>) -> Option<Seq<char>>;

/// `pem::parse`: a function of the text, `None` where it reports an error.
#[verifier::external_body]
pub(crate) fn parse_pem(text: &str) -> (r: Option<PemBlock>)
    ensures
        match r {
            Some(block) => parsed_pem(text@) == Some(block@),
            None => parsed_pem(text@) is None,
        },
{
    let block = pem::parse(text).ok()?;
    Some(PemBlock { tag: block.tag().to_owned(), contents: block.into_contents() })
}

/// `pem::encode` on what `pem::parse` reads: a function of the text, and there
/// is a result exactly where `pem::parse` gives a block.
#[verifier::external_body]
pub(crate) fn rewrite_pem(text: &str) -> (r: Option<String>)
    ensures
        match r {
            Some(written) => rewritten_pem(text@) == Some(written@),
            None => rewritten_pem(text@) is None,
        },
        r is Some == parsed_pem(text@) is Some,
{
    Some(pem::encode(&pem::parse(text).ok()?))
}

// ---------------------------------------------------------------------------
// Fingerprints
// ---------------------------------------------------------------------------

/// The SHA-256 of a certificate's bytes in lower-case hexadecimal.
pub open spec fn sha256_fingerprint(der: Seq<u8>) -> Seq<char> {
    hex(sha256_digest(der))
}

/// The SHA-1 of a certificate's bytes in lower-case hexadecimal.
pub open spec fn sha1_thumbprint(der: Seq<u8>) -> Seq<char> {
    hex(sha1_digest(der))
}

/// The SHA-256 of a certificate's bytes in lower-case hexadecimal.
pub fn fingerprint_of(der: &[u8]) -> (r: String)
    ensures
        r@ == sha256_fingerprint(der@),
{
    let digest: Vec<u8> = sha256(der);
    hex_text(digest.as_slice())
}

/// The SHA-1 of a certificate's bytes in lower-case hexadecimal.
pub fn thumbprint_of(der: &[u8]) -> (r: String)
    ensures
        r@ == sha1_thumbprint(der@),
{
    let digest: Vec<u8> = sha1(der);
    hex_text(digest.as_slice())
}

/// What a lower-case hexadecimal digit counts.
pub open spec fn hex_value(c: char) -> int {
    if '0' <= c <= '9' {
        c as int - 48
    } else {
        c as int - 87
    }
}

/// Hexadecimal text has two digits for each byte, the higher one first, and is
/// in lower case.
pub proof fn law_hexadecimal_text_reads_back(bytes: Seq<u8>, i: int)
    requires
        0 <= i < bytes.len(),
    ensures
        hex(bytes).len() == 2 * bytes.len(),
        hex_value(hex(bytes)[2 * i]) * 16 + hex_value(hex(bytes)[2 * i + 1]) == bytes[i],
        '0' <= hex(bytes)[2 * i] <= '9' || 'a' <= hex(bytes)[2 * i] <= 'f',
        '0' <= hex(bytes)[2 * i + 1] <= '9' || 'a' <= hex(bytes)[2 * i + 1] <= 'f',
{
    let b = bytes[i];
    assert((2 * i) / 2 == i && (2 * i) % 2 == 0);
    assert((2 * i + 1) / 2 == i && (2 * i + 1) % 2 == 1);
    assert(hex(bytes)[2 * i] == hex_char((b / 16) as u8));
    assert(hex(bytes)[2 * i + 1] == hex_char((b % 16) as u8));
    lemma_hex_char((b / 16) as u8);
    lemma_hex_char((b % 16) as u8);
    assert((b / 16) * 16 + b % 16 == b);
}

proof fn lemma_hex_char(d: u8)
    requires
        d < 16,
    ensures
        hex_value(hex_char(d)) == d,
        '0' <= hex_char(d) <= '9' || 'a' <= hex_char(d) <= 'f',
{
}

} // verus!
