//! Device identity: an Ed25519 key (whose public half gives the device id), the
//! TLS certificate pinned by peers, and the default device name.

use vstd::prelude::*;
use crate::crypto::{ed25519_public_key, ed25519_sign, spec_blake3, spec_ed25519_public, spec_ed25519_sign};
use crate::hex::{hex_text, is_hex_text, hex_bytes};
use crate::text::{ascii_lower, is_ascii_alnum, trim_both};

verus! {

broadcast use vstd::string::group_string_axioms;

/// Why an identity could not be built.
#[derive(Clone, Copy, Debug, PartialEq, Eq, Structural)]
pub enum IdentityError {
    /// The stored signing seed is not 32 bytes long.
    BadSeedLength,
}

impl IdentityError {
    /// The message the application shows for this error.
    pub fn message(&self) -> (s: &'static str)
        ensures
            s@ == "身份密钥长度异常"@,
    {
        match self {
            IdentityError::BadSeedLength => "身份密钥长度异常",
        }
    }
}

/// The device id of a public key: the first eight bytes of its BLAKE3 digest, in
/// lower-case hexadecimal (sixteen characters).
pub open spec fn spec_device_id(public_key: Seq<u8>) -> Seq<char> {
    hex_text(spec_blake3(public_key).take(8))
}

/// The device id derived from a public key.
pub fn device_id_from_public_key(public_key: &[u8]) -> (id: String)
    ensures
        id@ == spec_device_id(public_key@),
        id@.len() == 16,
{
    let digest = crate::crypto::blake3_hash(public_key);
    let first = crate::bytes::sub_bytes(&digest, 0, 8);
    assert(first@ =~= digest@.take(8));
    crate::hex::encode(first.as_slice())
}

/// `s` with every character other than an ASCII letter or digit replaced by `mapped`.
pub open spec fn map_non_alnum(s: Seq<char>, lower: bool) -> Seq<char> {
    Seq::new(
        s.len(),
        |i: int|
            if is_ascii_alnum(s[i]) {
                if lower {
                    ascii_lower(s[i])
                } else {
                    s[i]
                }
            } else {
                '-'
            },
    )
}

/// A host name made safe: ASCII letters and digits kept, everything else a dash,
/// dashes trimmed from both ends, and `"LanClip"` if nothing is left.
pub open spec fn spec_sanitize_ascii(s: Seq<char>) -> Seq<char> {
    let t = trim_both(map_non_alnum(s, false), true);
    if t.len() == 0 {
        seq!['L', 'a', 'n', 'C', 'l', 'i', 'p']
    } else {
        t
    }
}

/// Maps every character that is not an ASCII letter or digit to a dash,
/// lower-casing letters when `lower`.
pub fn map_chars(s: &str, lower: bool) -> (r: Vec<char>)
    ensures
        r@ == map_non_alnum(s@, lower),
{
    let cs = crate::text::str_chars(s);
    let mut r: Vec<char> = Vec::new();
    let mut i: usize = 0;
    while i < cs.len()
        invariant
            cs@ == s@,
            i <= cs@.len(),
            r@ == map_non_alnum(s@, lower).take(i as int),
        decreases cs@.len() - i,
    {
        let c = cs[i];
        let m = if crate::text::is_ascii_alphanumeric(c) {
            if lower {
                crate::text::to_ascii_lowercase(c)
            } else {
                c
            }
        } else {
            '-'
        };
        r.push(m);
        assert(r@ =~= map_non_alnum(s@, lower).take(i + 1));
        i = i + 1;
    }
    assert(map_non_alnum(s@, lower).take(cs@.len() as int) =~= map_non_alnum(s@, lower));
    r
}

/// Makes a host name safe to show as part of a device name.
pub fn sanitize_ascii(s: &str) -> (r: String)
    ensures
        r@ == spec_sanitize_ascii(s@),
{
    let mapped = map_chars(s, false);
    let t = crate::text::trim_chars(mapped.as_slice(), true);
    if t.len() == 0 {
        proof {
            reveal_strlit("LanClip");
        }
        String::from_str("LanClip")
    } else {
        crate::text::chars_to_string(t.as_slice())
    }
}

/// The default device name: the sanitised host name, a dash and the first four
/// characters of the device id.
pub open spec fn spec_default_name(host: Seq<char>, device_id: Seq<char>) -> Seq<char> {
    spec_sanitize_ascii(host) + seq!['-'] + device_id.take(4)
}

/// The default name of a device on host `host`.
pub fn default_device_name(host: &str, device_id: &str) -> (r: String)
    requires
        device_id@.len() >= 4,
    ensures
        r@ == spec_default_name(host@, device_id@),
{
    let mut cs = crate::text::str_chars(sanitize_ascii(host).as_str());
    cs.push('-');
    let id = crate::text::str_chars(device_id);
    let mut i: usize = 0;
    let ghost start = cs@;
    while i < 4
        invariant
            id@ == device_id@,
            id@.len() >= 4,
            i <= 4,
            cs@ == start + id@.take(i as int),
        decreases 4 - i,
    {
        cs.push(id[i]);
        assert(cs@ =~= start + id@.take(i + 1));
        i = i + 1;
    }
    crate::text::chars_to_string(cs.as_slice())
}

/// The 32-byte signing seed stored for this device; refused at any other length.
pub fn seed_from_bytes(bytes: &[u8]) -> (r: Result<[u8; 32], IdentityError>)
    ensures
        r is Ok <==> bytes@.len() == 32,
        r matches Ok(seed) ==> seed@ == bytes@,
        r matches Err(e) ==> e == IdentityError::BadSeedLength,
{
    if bytes.len() != 32 {
        return Err(IdentityError::BadSeedLength);
    }
    let mut seed = [0u8; 32];
    let mut i: usize = 0;
    while i < 32
        invariant
            bytes@.len() == 32,
            i <= 32,
            forall|j: int| 0 <= j < i ==> seed@[j] == bytes@[j],
        decreases 32 - i,
    {
        seed[i] = bytes[i];
        i = i + 1;
    }
    assert(seed@ =~= bytes@);
    Ok(seed)
}

/// The certificate kept from an earlier run: the stored hexadecimal text decoded,
/// when it decodes to at least one byte.
pub fn stored_certificate(stored_hex: Option<&str>) -> (r: Option<Vec<u8>>)
    ensures
        r matches Some(der) ==> stored_hex matches Some(h) && is_hex_text(h@) && der@ == hex_bytes(
            h@,
        ) && der@.len() > 0,
        r is None ==> (stored_hex is None || !is_hex_text(stored_hex->0@) || hex_bytes(
            stored_hex->0@,
        ).len() == 0),
{
    match stored_hex {
        Some(h) => match crate::hex::decode(h) {
            Ok(der) => if der.len() > 0 {
                Some(der)
            } else {
                None
            },
            Err(_) => None,
        },
        None => None,
    }
}

/// This device's identity.
pub struct Identity {
    /// Derived from the public key by [`spec_device_id`].
    pub device_id: String,
    /// The Ed25519 secret seed.
    pub seed: [u8; 32],
    /// The Ed25519 public key.
    pub public_key: [u8; 32],
    /// The self-signed TLS certificate (DER) that peers pin.
    pub tls_cert: Vec<u8>,
    /// The TLS private key (PKCS#8 DER).
    pub tls_key_pkcs8: Vec<u8>,
    /// The name used until the user picks one.
    pub default_name: String,
}

impl Identity {
    /// The public key, the device id and the default name follow from the seed.
    pub open spec fn wf(&self, host: Seq<char>) -> bool {
        &&& self.public_key@ == spec_ed25519_public(self.seed@)
        &&& self.device_id@ == spec_device_id(self.public_key@)
        &&& self.default_name@ == spec_default_name(host, self.device_id@)
    }

    /// The identity of a device with the given stored seed, TLS key and
    /// certificate, on host `host`.
    pub fn from_parts(seed: &[u8], tls_key_pkcs8: Vec<u8>, tls_cert: Vec<u8>, host: &str) -> (r: Result<
        Identity,
        IdentityError,
    >)
        ensures
            r is Ok <==> seed@.len() == 32,
            r matches Ok(id) ==> id.wf(host@) && id.seed@ == seed@ && id.tls_cert@ == tls_cert@
                && id.tls_key_pkcs8@ == tls_key_pkcs8@ && id.device_id@.len() == 16,
            r matches Err(e) ==> e == IdentityError::BadSeedLength,
    {
        let seed = seed_from_bytes(seed)?;
        let public_key = ed25519_public_key(&seed);
        let device_id = device_id_from_public_key(&public_key);
        let default_name = default_device_name(host, device_id.as_str());
        Ok(Identity { device_id, seed, public_key, tls_cert, tls_key_pkcs8, default_name })
    }

    /// Loading again from the same stored seed, key and certificate gives the same
    /// identity: two well-formed identities with the same seed have the same public
    /// key and device id, and on the same host the same default name.
    pub proof fn lemma_same_seed_same_identity(a: Identity, b: Identity, host_a: Seq<char>, host_b: Seq<char>)
        requires
            a.wf(host_a),
            b.wf(host_b),
            a.seed@ == b.seed@,
        ensures
            a.public_key@ == b.public_key@,
            a.device_id@ == b.device_id@,
            host_a == host_b ==> a.default_name@ == b.default_name@,
    {
    }

    /// Signs `message` with this device's key.
    pub fn sign(&self, message: &[u8]) -> (sig: [u8; 64])
        ensures
            sig@ == spec_ed25519_sign(self.seed@, message@),
    {
        ed25519_sign(&self.seed, message)
    }
}

} // verus!
