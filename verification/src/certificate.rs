//! This device's TLS key and self-signed certificate, made with `rcgen`
//! (ECDSA P-256 with SHA-256). Key generation and ECDSA signing draw on the
//! system's random source, so nothing is stated of the bytes they give; what is
//! stated is which certificate is used and when a new one has to be saved.

use vstd::prelude::*;
use crate::hex::{hex_bytes, is_hex_text};
use crate::text::opt_str;

verus! {

#[verifier::external_type_specification]
#[verifier::external_body]
pub struct ExKeyPair(rcgen::KeyPair);

#[verifier::external_type_specification]
#[verifier::external_body]
pub struct ExRcgenError(rcgen::Error);

/// The first day the certificate is valid: 1 January 2024.
pub const NOT_BEFORE: (i32, u8, u8) = (2024, 1, 1);

/// The last day the certificate is valid: 31 December 2099.
pub const NOT_AFTER: (i32, u8, u8) = (2099, 12, 31);

/// Whether `year-month-day` is a date of the proleptic Gregorian calendar in the
/// range the `time` crate accepts (years -9999 to 9999).
pub open spec fn is_calendar_date(year: i32, month: u8, day: u8) -> bool {
    let leap = (year % 4 == 0 && year % 100 != 0) || year % 400 == 0;
    let days: int = if month == 2 {
        if leap { 29 } else { 28 }
    } else if month == 4 || month == 6 || month == 9 || month == 11 {
        30
    } else {
        31
    };
    &&& -9999 <= year <= 9999
    &&& 1 <= month <= 12
    &&& 1 <= day <= days
}

/// Why the certificate could not be made.
#[derive(Clone, Debug)]
pub enum CertificateError {
    /// The stored TLS private key is not a PKCS#8 ECDSA P-256 key.
    BadTlsKey,
    /// `rcgen` failed; its error text.
    Rcgen(String),
}

impl CertificateError {
    /// The message the application shows for this error.
    pub fn message(&self) -> (s: String)
        ensures
            self is BadTlsKey ==> s@ == "TLS 私钥解析失败"@,
            self matches CertificateError::Rcgen(t) ==> s@ == t@,
    {
        match self {
            CertificateError::BadTlsKey => String::from_str("TLS 私钥解析失败"),
            CertificateError::Rcgen(t) => t.clone(),
        }
    }
}

/// `rcgen::KeyPair::generate`, serialised with `KeyPair::serialize_der`: a fresh
/// random ECDSA P-256 key pair as PKCS#8 DER. The source makes it with `ring`'s
/// P-256 `generate_pkcs8` and parses that document back before returning it, so
/// the bytes are a P-256 PKCS#8 key; nothing else is stated of them.
#[verifier::external_body]
fn generate_key_der() -> (r: Result<Vec<u8>, rcgen::Error>)
    ensures
        r matches Ok(der) ==> spec_p256_pkcs8(der@),
{
    match rcgen::KeyPair::generate() {
        Ok(k) => Ok(k.serialize_der()),
        Err(e) => Err(e),
    }
}

/// Whether `der` is a PKCS#8 document holding an ECDSA P-256 private key that
/// `ring` accepts (a function of the bytes alone).
pub uninterp spec fn spec_p256_pkcs8(der: Seq<u8>) -> bool;

/// `rcgen::KeyPair::from_pkcs8_der_and_sign_algo` with ECDSA P-256/SHA-256. A key
/// that is not a P-256 PKCS#8 key is refused; a valid one can still be refused
/// when the system's random source fails (it seeds the signing nonces), so
/// success is not stated.
#[verifier::external_body]
fn key_pair_from_pkcs8(der: &[u8]) -> (r: Result<rcgen::KeyPair, rcgen::Error>)
    ensures
        r is Ok ==> spec_p256_pkcs8(der@),
{
    rcgen::KeyPair::from_pkcs8_der_and_sign_algo(
        &rustls::pki_types::PrivatePkcs8KeyDer::from(der),
        &rcgen::PKCS_ECDSA_P256_SHA256,
    )
}

/// What a certificate is made from: its subject alternative names, the common
/// name of its subject and its validity period (first and last day, UTC).
#[derive(Debug)]
pub struct CertRequest {
    pub subject_alt_names: Vec<String>,
    pub common_name: String,
    pub not_before: (i32, u8, u8),
    pub not_after: (i32, u8, u8),
}

/// The request for this device's certificate: the device id as the one
/// alternative name and as the common name, valid from [`NOT_BEFORE`] to
/// [`NOT_AFTER`].
pub fn certificate_request(device_id: &str) -> (r: CertRequest)
    ensures
        r.subject_alt_names@.len() == 1,
        r.subject_alt_names@[0]@ == device_id@,
        r.common_name@ == device_id@,
        r.not_before == NOT_BEFORE,
        r.not_after == NOT_AFTER,
{
    let mut names: Vec<String> = Vec::new();
    names.push(device_id.to_owned());
    CertRequest { subject_alt_names: names, common_name: device_id.to_owned(), not_before: NOT_BEFORE, not_after: NOT_AFTER }
}

/// `rcgen::CertificateParams::self_signed` on the parameters of `req`
/// (`CertificateParams::new` with its names, a distinguished name holding only
/// its common name, `date_time_ymd` for its period), as DER. ECDSA signing draws
/// a random nonce, so nothing is stated of the bytes. `date_time_ymd` panics on a
/// date outside the calendar, which `requires` rules out.
#[verifier::external_body]
fn self_signed_der(req: &CertRequest, key_pair: &rcgen::KeyPair) -> (r: Result<Vec<u8>, rcgen::Error>)
    requires
        is_calendar_date(req.not_before.0, req.not_before.1, req.not_before.2),
        is_calendar_date(req.not_after.0, req.not_after.1, req.not_after.2),
{
    let mut params = rcgen::CertificateParams::new(req.subject_alt_names.clone())?;
    params.distinguished_name = rcgen::DistinguishedName::new();
    params.distinguished_name.push(rcgen::DnType::CommonName, req.common_name.clone());
    let (b, a) = (req.not_before, req.not_after);
    params.not_before = rcgen::date_time_ymd(b.0, b.1, b.2);
    params.not_after = rcgen::date_time_ymd(a.0, a.1, a.2);
    Ok(params.self_signed(key_pair)?.der().to_vec())
}

/// The text of an `rcgen` error (its `Display`).
#[verifier::external_body]
fn rcgen_error_text(e: &rcgen::Error) -> (r: String) {
    e.to_string()
}

/// A fresh TLS private key (PKCS#8 DER).
pub fn new_tls_key() -> (r: Result<Vec<u8>, CertificateError>)
    ensures
        r matches Err(e) ==> e is Rcgen,
        r matches Ok(der) ==> spec_p256_pkcs8(der@),
{
    match generate_key_der() {
        Ok(der) => Ok(der),
        Err(e) => Err(CertificateError::Rcgen(rcgen_error_text(&e))),
    }
}

/// A self-signed certificate (DER) for `device_id` with the stored TLS key, made
/// from [`certificate_request`]. A key that is not a P-256 PKCS#8 key gives
/// `BadTlsKey`; `rcgen`'s own failures give `Rcgen`.
pub fn self_signed_certificate(tls_key_pkcs8: &[u8], device_id: &str) -> (r: Result<Vec<u8>, CertificateError>)
    ensures
        !spec_p256_pkcs8(tls_key_pkcs8@) ==> (r matches Err(e) && e is BadTlsKey),
        r is Ok ==> spec_p256_pkcs8(tls_key_pkcs8@),
{
    let key_pair = match key_pair_from_pkcs8(tls_key_pkcs8) {
        Ok(k) => k,
        Err(_) => {
            return Err(CertificateError::BadTlsKey);
        },
    };
    let req = certificate_request(device_id);
    assert(is_calendar_date(2024, 1, 1) && is_calendar_date(2099, 12, 31));
    match self_signed_der(&req, &key_pair) {
        Ok(der) => Ok(der),
        Err(e) => Err(CertificateError::Rcgen(rcgen_error_text(&e))),
    }
}

/// Whether `stored_hex` holds a certificate kept from an earlier run: hexadecimal
/// text that decodes to at least one byte.
pub open spec fn has_stored_certificate(stored_hex: Option<Seq<char>>) -> bool {
    stored_hex matches Some(h) && is_hex_text(h) && hex_bytes(h).len() > 0
}

/// The certificate this device uses and whether it is new: the one kept from an
/// earlier run when there is one (see [`has_stored_certificate`]), else a new
/// self-signed one (see [`self_signed_certificate`]), which the caller saves.
pub fn device_certificate(stored_hex: Option<&str>, tls_key_pkcs8: &[u8], device_id: &str) -> (r: Result<
    (Vec<u8>, bool),
    CertificateError,
>)
    ensures
        has_stored_certificate(opt_str(stored_hex)) ==> (r matches Ok((der, fresh)) && !fresh && der@
            == hex_bytes(stored_hex->0@)),
        !has_stored_certificate(opt_str(stored_hex)) ==> (r matches Ok((_, fresh)) ==> fresh && spec_p256_pkcs8(
            tls_key_pkcs8@,
        )),
        !has_stored_certificate(opt_str(stored_hex)) && !spec_p256_pkcs8(tls_key_pkcs8@) ==> (r matches Err(e)
            && e is BadTlsKey),
{
    match crate::identity::stored_certificate(stored_hex) {
        Some(der) => Ok((der, false)),
        None => {
            let der = self_signed_certificate(tls_key_pkcs8, device_id)?;
            Ok((der, true))
        },
    }
}

} // verus!
