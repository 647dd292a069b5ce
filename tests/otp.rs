use totp::code::code_from_digest;
use totp::counter::counter_bytes;
use totp::format::DIGITS;
use totp::{
    dynamic_truncate, format_code, google_auth_compat, provisioning_uri, qr_code_text, topt,
    OtpError, ProvisioningError,
};

const RFC_SECRET: &[u8] = b"12345678901234567890";

fn known_digest() -> Vec<u8> {
    vec![
        0x1f, 0x86, 0x98, 0x69, 0x0e, 0x02, 0xca, 0x16, 0x61, 0x85, 0x50, 0xef, 0x7f, 0x19, 0xda,
        0x8e, 0x94, 0x5b, 0x55, 0x5a,
    ]
}

#[test]
fn test_dynamic_truncate() {
    // see https://jacob.jkrall.net/totp
    let hash = vec![
        0x1f, 0x86, 0x98, 0x69, 0x0e, 0x02, 0xca, 0x16, 0x61, 0x85, 0x50, 0xef, 0x7f, 0x19, 0xda,
        0x8e, 0x94, 0x5b, 0x55, 0x5a,
    ];
    let truncated = dynamic_truncate(&hash).unwrap();
    assert_eq!(truncated, 0x50ef7f19);
    assert_eq!(
        format!("{:06}", truncated % ((10 as u32).pow(DIGITS)),),
        "872921"
    );
}

#[test]
fn format_code_known_answer() {
    assert_eq!(format_code(0x50ef7f19), "872921");
}

#[test]
fn format_code_pads_with_zeros() {
    assert_eq!(format_code(0), "000000");
    assert_eq!(format_code(123), "000123");
    assert_eq!(format_code(1_000_000), "000000");
    assert_eq!(format_code(1_000_042), "000042");
    assert_eq!(format_code(u32::MAX), "967295");
}

#[test]
fn code_from_digest_known_answer() {
    assert_eq!(code_from_digest(&known_digest()), Ok(String::from("872921")));
}

#[test]
fn code_from_digest_short_digest() {
    assert_eq!(code_from_digest(&[0x01, 0x02, 0x03]), Err(OtpError::InvalidDigestLength));
}

#[test]
fn truncate_empty_digest() {
    assert_eq!(dynamic_truncate(&[]), Err(OtpError::InvalidDigestLength));
}

#[test]
fn truncate_offset_past_end() {
    // Last byte selects offset 15, which needs 19 bytes.
    let mut digest = vec![0u8; 18];
    digest[17] = 0x0f;
    assert_eq!(dynamic_truncate(&digest), Err(OtpError::InvalidDigestLength));
}

#[test]
fn truncate_offset_at_end() {
    let mut digest = vec![0u8; 19];
    digest[15] = 0x12;
    digest[16] = 0x34;
    digest[17] = 0x56;
    digest[18] = 0x0f;
    assert_eq!(dynamic_truncate(&digest), Ok(0x1234560f));
}

#[test]
fn truncate_offset_ignores_high_nibble() {
    let mut low = known_digest();
    let mut high = known_digest();
    low[19] = 0x0a;
    high[19] = 0xfa;
    assert_eq!(dynamic_truncate(&low), Ok(0x50ef7f19));
    assert_eq!(dynamic_truncate(&high), Ok(0x50ef7f19));
}

#[test]
fn truncate_offset_zero() {
    let mut digest = known_digest();
    digest[19] = 0x50;
    assert_eq!(dynamic_truncate(&digest), Ok(0x1f869869));
}

#[test]
fn truncate_clears_top_bit() {
    let digest = vec![0xffu8; 20];
    let v = dynamic_truncate(&digest).unwrap();
    assert_eq!(v, 0x7fffffff);
    assert_eq!(v & 0x8000_0000, 0);
}

#[test]
fn counter_bytes_big_endian() {
    assert_eq!(counter_bytes(1), [0, 0, 0, 0, 0, 0, 0, 1]);
    assert_eq!(
        counter_bytes(0x0102_0304_0506_0708),
        [1, 2, 3, 4, 5, 6, 7, 8]
    );
    assert_eq!(counter_bytes(u64::MAX), [0xff; 8]);
}

#[test]
fn topt_rfc6238_vectors() {
    assert_eq!(topt(59, RFC_SECRET), "287082");
    assert_eq!(topt(1111111109, RFC_SECRET), "081804");
    assert_eq!(topt(1111111111, RFC_SECRET), "050471");
    assert_eq!(topt(1234567890, RFC_SECRET), "005924");
    assert_eq!(topt(2000000000, RFC_SECRET), "279037");
    assert_eq!(topt(20000000000, RFC_SECRET), "353130");
}

#[test]
fn topt_is_deterministic() {
    assert_eq!(topt(1234567890, b"M1234"), topt(1234567890, b"M1234"));
}

#[test]
fn topt_same_step_same_code() {
    assert_eq!(topt(30, RFC_SECRET), topt(59, RFC_SECRET));
    assert_eq!(topt(1111111110, RFC_SECRET), topt(1111111139, RFC_SECRET));
}

#[test]
fn topt_next_step_differs() {
    assert_ne!(topt(1111111109, RFC_SECRET), topt(1111111109 + 30, RFC_SECRET));
}

#[test]
fn topt_fixed_width() {
    for t in [0u64, 29, 59, 1111111109, u64::MAX] {
        let code = topt(t, b"M1234");
        assert_eq!(code.len(), 6);
        assert!(code.chars().all(|c| c.is_ascii_digit()));
    }
}

#[test]
fn google_auth_compat_unpadded() {
    assert_eq!(google_auth_compat(b"M1234"), "JUYTEMZU");
    assert_eq!(google_auth_compat(b"f"), "MY");
    assert_eq!(google_auth_compat(b"fo"), "MZXQ");
    assert_eq!(google_auth_compat(b"foobar"), "MZXW6YTBOI");
    assert_eq!(google_auth_compat(b""), "");
}

#[test]
fn provisioning_uri_carries_secret() {
    assert_eq!(
        provisioning_uri(b"M1234"),
        "otpauth://totp/Short:moomou@localhost?secret=JUYTEMZU&issuer=Short"
    );
}

#[test]
fn qr_code_text_renders() {
    let text = qr_code_text(b"M1234").unwrap();
    assert!(text.lines().count() > 10);
    assert!(text.contains('█') || text.contains('▀') || text.contains('▄'));
}

#[test]
fn qr_code_text_too_long() {
    let secret = vec![0x42u8; 5000];
    assert_eq!(qr_code_text(&secret), Err(ProvisioningError::QrEncodingFailed));
}

#[test]
fn qr_code_text_draws_provisioning_uri() {
    let uri = provisioning_uri(b"M1234");
    let expected = qrcode::QrCode::new(uri.as_bytes())
        .unwrap()
        .render::<qrcode::render::unicode::Dense1x2>()
        .build();
    assert_eq!(qr_code_text(b"M1234"), Ok(expected));
}
