use lanclip::cipher::{CipherError, LocalCipher};
use lanclip::hex::{decode, encode, HexError};
use lanclip::pairing::{format_six_digits, pairing_code};
use lanclip::protocol::{encode_frame, frame_length, read_frame, FrameError, MAX_FRAME};
use lanclip::transport::{blake3_16, client_pairing_code, server_pairing_code};

#[test]
fn hex_encodes_lower_case() {
    assert_eq!(encode(&[0xde, 0xad, 0x01, 0xff]), "dead01ff");
    assert_eq!(encode(&[]), "");
}

#[test]
fn hex_decodes_both_cases() {
    assert_eq!(decode("DEADbeef").unwrap(), vec![0xde, 0xad, 0xbe, 0xef]);
    assert_eq!(decode("").unwrap(), Vec::<u8>::new());
}

#[test]
fn hex_decode_errors() {
    assert_eq!(decode("abc"), Err(HexError::OddLength));
    assert_eq!(decode("zz"), Err(HexError::InvalidHexCharacter(0)));
    assert_eq!(decode("0g"), Err(HexError::InvalidHexCharacter(1)));
}

#[test]
fn hex_round_trip() {
    let bytes: Vec<u8> = (0..=255u8).collect();
    assert_eq!(decode(&encode(&bytes)).unwrap(), bytes);
    assert_eq!(encode(&bytes), hex::encode(&bytes));
}

#[test]
fn pairing_code_is_order_independent() {
    let c1 = pairing_code(b"pub-aaaa", b"pub-bbbb", b"nonce-1");
    let c2 = pairing_code(b"pub-bbbb", b"pub-aaaa", b"nonce-1");
    assert_eq!(c1, c2);
    assert_eq!(c1.len(), 6);
    assert!(c1.chars().all(|c| c.is_ascii_digit()));
    assert_ne!(c1, pairing_code(b"pub-aaaa", b"pub-bbbb", b"nonce-2"));
}

#[test]
fn pairing_code_value() {
    let mut input = Vec::new();
    input.extend_from_slice(b"pub-aaaa");
    input.extend_from_slice(b"pub-bbbb");
    input.extend_from_slice(b"n");
    let d = blake3::hash(&input);
    let b = d.as_bytes();
    let v = u32::from_be_bytes([b[0], b[1], b[2], b[3]]);
    assert_eq!(pairing_code(b"pub-bbbb", b"pub-aaaa", b"n"), format!("{:06}", v % 1_000_000));
}

#[test]
fn pairing_code_prefix_orders_first() {
    let mut input = Vec::new();
    input.extend_from_slice(b"ab");
    input.extend_from_slice(b"abc");
    let d = blake3::hash(&input);
    let b = d.as_bytes();
    let v = u32::from_be_bytes([b[0], b[1], b[2], b[3]]);
    assert_eq!(pairing_code(b"abc", b"ab", b""), format!("{:06}", v % 1_000_000));
}

#[test]
fn six_digits_pad() {
    assert_eq!(format_six_digits(42), "000042");
    assert_eq!(format_six_digits(999_999), "999999");
    assert_eq!(format_six_digits(0), "000000");
}

#[test]
fn both_sides_compute_the_same_code() {
    let cert = b"responder certificate";
    let client_pub = [7u8; 32];
    let nonce = [9u8; 16];
    assert_eq!(server_pairing_code(&client_pub, cert, &nonce), client_pairing_code(&client_pub, cert, &nonce));
    assert_ne!(
        server_pairing_code(&client_pub, cert, &nonce),
        client_pairing_code(&client_pub, b"another certificate", &nonce)
    );
}

#[test]
fn blake3_16_is_digest_prefix() {
    let d = blake3::hash(b"cert");
    assert_eq!(blake3_16(b"cert"), d.as_bytes()[..16].to_vec());
}

#[test]
fn cipher_round_trip() {
    let c = LocalCipher::from_key(&[3u8; 32]).unwrap();
    let secret = "hello, lanclip 中文内容";
    let enc = c.encrypt(secret.as_bytes());
    assert_eq!(enc.len(), secret.len() + 28);
    assert_ne!(&enc[12..12 + secret.len()], secret.as_bytes());
    assert_eq!(c.decrypt(&enc).unwrap(), secret.as_bytes());
    let empty = c.encrypt(b"");
    assert_eq!(c.decrypt(&empty).unwrap(), Vec::<u8>::new());
}

#[test]
fn cipher_uses_fresh_nonces() {
    let c = LocalCipher::from_key(&[5u8; 32]).unwrap();
    assert_ne!(c.encrypt(b"same"), c.encrypt(b"same"));
}

#[test]
fn cipher_errors() {
    assert!(matches!(LocalCipher::from_key(&[0u8; 31]), Err(CipherError::BadKeyLength)));
    let c = LocalCipher::from_key(&[1u8; 32]).unwrap();
    assert_eq!(c.decrypt(&[0u8; 27]), Err(CipherError::CiphertextTooShort));
    let mut enc = c.encrypt(b"payload");
    let last = enc.len() - 1;
    enc[last] ^= 1;
    assert_eq!(c.decrypt(&enc), Err(CipherError::DecryptFailed));
    let other = LocalCipher::from_key(&[2u8; 32]).unwrap();
    assert_eq!(other.decrypt(&c.encrypt(b"payload")), Err(CipherError::DecryptFailed));
}

#[test]
fn cipher_error_messages() {
    assert_eq!(CipherError::BadKeyLength.message(), "内容加密密钥长度异常");
    assert_eq!(CipherError::CiphertextTooShort.message(), "密文长度异常");
    assert_eq!(CipherError::DecryptFailed.message(), "内容解密失败");
}

#[test]
fn frame_layout() {
    assert_eq!(encode_frame(b"abc"), vec![0, 0, 0, 3, b'a', b'b', b'c']);
    assert_eq!(encode_frame(&[]), vec![0, 0, 0, 0]);
    let big = vec![0u8; 0x01_02_03];
    assert_eq!(&encode_frame(&big)[..4], &[0, 1, 2, 3]);
}

#[test]
fn frame_round_trip_with_trailing_bytes() {
    let mut buf = encode_frame(b"hello");
    buf.extend_from_slice(b"next");
    assert_eq!(read_frame(&buf), Ok((b"hello".to_vec(), 9)));
}

#[test]
fn frame_errors() {
    assert_eq!(read_frame(&[0, 0]), Err(FrameError::Incomplete));
    assert_eq!(read_frame(&[0, 0, 0, 5, 1, 2]), Err(FrameError::Incomplete));
    let too_big = (MAX_FRAME as u32 + 1).to_be_bytes();
    assert_eq!(frame_length(&too_big), Err(FrameError::TooLarge(MAX_FRAME as u32 + 1)));
    assert_eq!(frame_length(&(MAX_FRAME as u32).to_be_bytes()), Ok(MAX_FRAME));
    let mut buf = too_big.to_vec();
    buf.extend_from_slice(&[0u8; 16]);
    assert_eq!(read_frame(&buf), Err(FrameError::TooLarge(MAX_FRAME as u32 + 1)));
}

#[test]
fn stored_certificate_is_reused_and_not_saved_again() {
    let (der, fresh) = lanclip::certificate::device_certificate(Some("3082"), &[], "abcd").unwrap();
    assert_eq!(der, vec![0x30, 0x82]);
    assert!(!fresh);
}

#[test]
fn missing_certificate_is_made_from_the_tls_key() {
    let key = lanclip::certificate::new_tls_key().unwrap();
    assert!(!key.is_empty());
    let (der, fresh) = lanclip::certificate::device_certificate(None, &key, "0123456789abcdef").unwrap();
    assert!(fresh);
    assert_eq!(der[0], 0x30);
    let (again, fresh_again) = lanclip::certificate::device_certificate(Some("zz"), &key, "0123456789abcdef").unwrap();
    assert!(fresh_again);
    assert_eq!(again[0], 0x30);
}

#[test]
fn unparsable_tls_key_is_refused() {
    let r = lanclip::certificate::self_signed_certificate(&[1, 2, 3], "0123456789abcdef");
    assert!(matches!(r, Err(lanclip::certificate::CertificateError::BadTlsKey)));
    assert_eq!(r.unwrap_err().message(), "TLS 私钥解析失败");
}

#[test]
fn random_bytes_have_the_asked_length_and_differ() {
    let a = lanclip::crypto::random_bytes(32);
    let b = lanclip::crypto::random_bytes(32);
    assert_eq!(a.len(), 32);
    assert_eq!(lanclip::crypto::random_bytes(0).len(), 0);
    assert_ne!(a, b);
}

#[test]
fn challenge_carries_its_nonce() {
    let (nonce, msg) = lanclip::transport::new_challenge();
    match msg {
        lanclip::protocol::Message::Challenge { nonce: n } => assert_eq!(n, nonce),
        _ => panic!("expected a challenge"),
    }
    let (other, _) = lanclip::transport::new_challenge();
    assert_ne!(nonce, other);
}

#[test]
fn pairing_request_carries_identity_and_fresh_nonce() {
    let ident = lanclip::identity::Identity::from_parts(&[9u8; 32], vec![], b"cert".to_vec(), "h").unwrap();
    let (nonce, msg) = lanclip::transport::new_pairing_request(&ident, "desk".to_string());
    assert_eq!(nonce.len(), 16);
    match msg {
        lanclip::protocol::Message::PairingRequest { device_id, device_name, device_pubkey, cert_der, nonce: n } => {
            assert_eq!(device_id, ident.device_id);
            assert_eq!(device_name, "desk");
            assert_eq!(device_pubkey, ident.public_key.to_vec());
            assert_eq!(cert_der, b"cert".to_vec());
            assert_eq!(n, nonce);
        }
        _ => panic!("expected a pairing request"),
    }
}

#[test]
fn local_push_gets_a_uuid_message_id() {
    let mut g = lanclip::clipboard::EchoGuard::new();
    let c = lanclip::clipboard::ClipContent { text: Some("copied".into()), html: None };
    let m = lanclip::clipboard::local_clipboard_push(&mut g, true, &c, 5_000, "me".into()).unwrap();
    match m {
        lanclip::protocol::Message::ClipboardPush { msg_id, sender_id, .. } => {
            let cs: Vec<char> = msg_id.chars().collect();
            assert_eq!(cs.len(), 36);
            assert_eq!((cs[8], cs[13], cs[14], cs[18], cs[23]), ('-', '-', '4', '-', '-'));
            assert_eq!(sender_id, "me");
        }
        _ => panic!("expected a push"),
    }
    assert!(lanclip::clipboard::local_clipboard_push(&mut g, true, &c, 6_000, "me".into()).is_none());
}

#[test]
fn certificate_request_names_the_device() {
    let r = lanclip::certificate::certificate_request("0123456789abcdef");
    assert_eq!(r.subject_alt_names, vec!["0123456789abcdef".to_string()]);
    assert_eq!(r.common_name, "0123456789abcdef");
    assert_eq!(r.not_before, (2024, 1, 1));
    assert_eq!(r.not_after, (2099, 12, 31));
}

#[test]
fn tampered_ciphertext_is_refused_as_decrypt_failure() {
    let c = LocalCipher::from_key(&[8u8; 32]).unwrap();
    let mut data = c.encrypt(b"secret");
    data[20] ^= 1;
    assert_eq!(c.decrypt(&data), Err(CipherError::DecryptFailed));
    let other = LocalCipher::from_key(&[9u8; 32]).unwrap();
    assert_eq!(other.decrypt(&c.encrypt(b"secret")), Err(CipherError::DecryptFailed));
}
