//! Text for enrolling a secret in an authenticator app: the unpadded base32
//! secret, the `otpauth://` URI that carries it, and that URI as a QR code.
use data_encoding::BASE32;
use qrcode::render::unicode;
use qrcode::QrCode;
use vstd::prelude::*;

verus! {

/// Failures of provisioning output.
#[derive(Debug, Clone, Copy, PartialEq, Eq, Structural)]
pub enum ProvisioningError {
    /// The URI could not be encoded as a QR code.
    QrEncodingFailed,
}

/// The padded RFC 4648 base32 text of `bytes`.
pub uninterp spec fn base32_of(bytes: Seq<u8>) -> Seq<char>;

/// Inputs short enough for base32 encoding to size its output.
pub open spec fn base32_len_ok(bytes: Seq<u8>) -> bool {
    bytes.len() <= usize::MAX / 512
}

/// A character of the RFC 4648 base32 alphabet: `A` to `Z` and `2` to `7`.
pub open spec fn is_base32_symbol(c: char) -> bool {
    ('A' <= c && c <= 'Z') || ('2' <= c && c <= '7')
}

/// Relies on `data_encoding::BASE32.encode`: the padded base32 text of
/// `bytes`, eight characters for each started group of five bytes, each a
/// symbol of the alphabet or the padding `'='`. It asserts that the input is
/// at most `usize::MAX / 512` bytes.
#[verifier::external_body]
fn base32_padded(bytes: &[u8]) -> (r: String)
    requires
        base32_len_ok(bytes@),
    ensures
        r@ == base32_of(bytes@),
        r@.len() == 8 * ((bytes@.len() + 4) / 5),
        forall|i: int| 0 <= i < r@.len() ==> is_base32_symbol(#[trigger] r@[i]) || r@[i] == '=',
{
    BASE32.encode(bytes)
}

/// Whether `data` fits in a QR symbol at medium error correction.
pub uninterp spec fn qr_fits(data: Seq<char>) -> bool;

/// The QR symbol of `data` drawn as text, two modules per character.
pub uninterp spec fn qr_dense_of(data: Seq<char>) -> Seq<char>;

/// Relies on `qrcode::QrCode::new`, which encodes `data` at medium error
/// correction in the smallest symbol that holds it or fails when none does,
/// and on `QrCode::render` with the `unicode::Dense1x2` pixel and
/// `Renderer::build`, which draw that symbol as text.
#[verifier::external_body]
fn qr_render(data: &str) -> (r: Option<String>)
    ensures
        r is Some <==> qr_fits(data@),
        r matches Some(s) ==> s@ == qr_dense_of(data@),
{
    match QrCode::new(data) {
        Ok(code) => Some(code.render::<unicode::Dense1x2>().build()),
        Err(_) => None,
    }
}

/// `s` with every `'='` removed.
pub open spec fn strip_padding(s: Seq<char>) -> Seq<char>
    decreases s.len(),
{
    if s.len() == 0 {
        s
    } else if s.last() == '=' {
        strip_padding(s.drop_last())
    } else {
        strip_padding(s.drop_last()).push(s.last())
    }
}

/// The secret as authenticator apps take it: base32 without padding.
pub open spec fn unpadded_base32(secret: Seq<u8>) -> Seq<char> {
    strip_padding(base32_of(secret))
}

/// Encodes `secret` as base32 without `'='` padding.
pub fn google_auth_compat(secret: &[u8]) -> (r: String)
    requires
        base32_len_ok(secret@),
    ensures
        r@ == unpadded_base32(secret@),
        forall|i: int| 0 <= i < r@.len() ==> is_base32_symbol(#[trigger] r@[i]),
{
    let padded = base32_padded(secret);
    let text = padded.as_str();
    assert(forall|j: int| 0 <= j < text@.len() ==> is_base32_symbol(#[trigger] text@[j]) || text@[j] == '=');
    let n = text.unicode_len();
    let mut out = String::new();
    let mut i: usize = 0;
    while i < n
        invariant
            n == text@.len(),
            i <= n,
            out@ == strip_padding(text@.subrange(0, i as int)),
            forall|j: int| 0 <= j < n ==> is_base32_symbol(#[trigger] text@[j]) || text@[j] == '=',
            forall|j: int| 0 <= j < out@.len() ==> is_base32_symbol(#[trigger] out@[j]),
        decreases n - i,
    {
        let c = text.get_char(i);
        proof {
            assert(text@.subrange(0, i + 1).drop_last() =~= text@.subrange(0, i as int));
        }
        if c != '=' {
            out.push(c);
        }
        i = i + 1;
    }
    proof {
        assert(text@.subrange(0, n as int) =~= text@);
    }
    out
}

/// The provisioning URI that authenticator apps scan for `secret`.
pub open spec fn provisioning_uri_text(secret: Seq<u8>) -> Seq<char> {
    "otpauth://totp/Short:moomou@localhost?secret="@ + unpadded_base32(secret) + "&issuer=Short"@
}

/// Builds the `otpauth://totp/` URI that carries `secret` in unpadded base32.
pub fn provisioning_uri(secret: &[u8]) -> (r: String)
    requires
        base32_len_ok(secret@),
    ensures
        r@ == provisioning_uri_text(secret@),
{
    let encoded = google_auth_compat(secret);
    let mut uri = String::from_str("otpauth://totp/Short:moomou@localhost?secret=");
    uri.append(encoded.as_str());
    uri.append("&issuer=Short");
    uri
}

/// The provisioning URI for `secret` drawn as a text QR code, or an error when
/// the URI does not fit in any QR symbol.
pub fn qr_code_text(secret: &[u8]) -> (r: Result<String, ProvisioningError>)
    requires
        base32_len_ok(secret@),
    ensures
        r is Ok <==> qr_fits(provisioning_uri_text(secret@)),
        r matches Ok(s) ==> s@ == qr_dense_of(provisioning_uri_text(secret@)),
        r matches Err(e) ==> e == ProvisioningError::QrEncodingFailed,
{
    let uri = provisioning_uri(secret);
    match qr_render(uri.as_str()) {
        Some(text) => Ok(text),
        None => Err(ProvisioningError::QrEncodingFailed),
    }
}

} // verus!
